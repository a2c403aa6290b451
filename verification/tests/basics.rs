use wordtohtml::escape::escape_text;
use wordtohtml::layout::{strip_newlines, wrap};
use wordtohtml::styles::{is_mono_font, is_mono_style, is_pre_style};
use wordtohtml::symbols::{to_char, SYMBOL, WEBDINGS, WINGDINGS, WINGDINGS2, WINGDINGS3};

#[test]
fn mono_fonts_are_detected() {
    for mono in [
        "Consolas",
        "Courier New",
        "JetBrains Mono",
        "Fira Code",
        "Source Code Pro",
        "Hack",
    ] {
        assert!(is_mono_font(mono), "{mono} should be monospace");
    }
    for proportional in ["Calibri", "Cambria", "Encode Sans", "Input Sans"] {
        assert!(
            !is_mono_font(proportional),
            "{proportional} is not monospace"
        );
    }
}

#[test]
fn code_styles_are_detected() {
    for style in [
        "HTMLPreformatted",
        "HTML Preformatted",
        "Source Code",
        "Code",
    ] {
        assert!(is_pre_style(style), "{style} should be a pre style");
    }
    for style in ["HTMLCode", "VerbatimChar", "Code"] {
        assert!(is_mono_style(style), "{style} should mark inline code");
    }
    assert!(!is_pre_style("Heading1"));
    assert!(!is_mono_style("Strong"));
    assert!(!is_mono_style("Emphasis"));
}

#[test]
fn wrap_leaves_pre_content_alone() {
    let html = "<pre><code>    indented\n  line\n</code></pre>\n\n<p>plain words here</p>";
    let wrapped = wrap(html, 20);
    assert!(
        wrapped.contains("<pre><code>    indented\n  line\n</code></pre>"),
        "pre content was altered: {wrapped}"
    );
}

#[test]
fn wrap_still_breaks_prose() {
    let wrapped = wrap("<p>one two three four five</p>", 10);
    assert!(wrapped.contains('\n'), "long prose should wrap: {wrapped}");
}

#[test]
fn wrap_zero_keeps_code_newlines() {
    let html = "<pre><code>a\nb</code></pre>\n\n<p>x</p>";
    assert_eq!(strip_newlines(html), "<pre><code>a\nb</code></pre><p>x</p>");
}

#[test]
fn escape_keeps_whitespace_only_for_code() {
    assert_eq!(escape_text("a\tb\nc", true), "a\tb\nc");
    assert_eq!(escape_text("a\tb\nc", false), "a b c");
    assert_eq!(escape_text("a < b", true), "a &lt; b");
}

#[test]
fn wingdings_smiley_becomes_a_colour_face() {
    // The case this all exists for: Word's Wingdings "J" is a smiley.
    assert_eq!(to_char("Wingdings", 0xF04A), Some('\u{1F642}'));
    assert_eq!(to_char("Wingdings", 0x4A), Some('\u{1F642}'));
    assert_eq!(to_char("wingdings", 0x4A), Some('\u{1F642}'));
}

#[test]
fn other_symbol_fonts_are_recognised() {
    assert_eq!(to_char("Symbol", 0xF061), Some('\u{03B1}')); // alpha
    assert_eq!(to_char("Wingdings 2", 0xF04A), Some('\u{1F446}'));
    assert_eq!(to_char("Webdings", 0xF04C), Some('\u{1F50D}')); // magnifier
}

#[test]
fn literal_code_points_pass_through() {
    assert_eq!(to_char("Wingdings", 0x263A), Some('\u{263A}'));
}

#[test]
fn tables_are_sorted_and_unique_for_binary_search() {
    for table in [
        &SYMBOL[..],
        &WINGDINGS[..],
        &WINGDINGS2[..],
        &WINGDINGS3[..],
        &WEBDINGS[..],
    ] {
        for pair in table.windows(2) {
            assert!(pair[0].0 < pair[1].0, "table is not sorted: {pair:?}");
        }
    }
}
