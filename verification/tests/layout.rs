use wordtohtml::escape::{escape, escape_attr, escape_text};
use wordtohtml::layout::{build_document, layout_body, merge_adjacent, strip_newlines, wrap, wrap_document};

fn printed(s: &str) -> String {
    s.chars().filter(|c| *c != ' ' && *c != '\n').collect()
}

#[test]
fn merge_stitches_adjacent_runs() {
    assert_eq!(merge_adjacent("<em>very</em><em> </em><em>long</em>"), "<em>very long</em>");
    assert_eq!(
        merge_adjacent("<strong>a</strong><strong>b</strong> <strong>c</strong>"),
        "<strong>ab</strong> <strong>c</strong>"
    );
    assert_eq!(merge_adjacent("<code>x</code><code>y</code>"), "<code>xy</code>");
    assert_eq!(merge_adjacent("<em>a</em><strong>b</strong>"), "<em>a</em><strong>b</strong>");
}

#[test]
fn merge_repeats_until_nothing_changes() {
    // Removing one boundary exposes another of an earlier tag.
    assert_eq!(merge_adjacent("<em>a</em></u><u><em>b</em>"), "<em>ab</em>");
}

#[test]
fn merge_is_idempotent() {
    for html in [
        "<em>a</em><em>b</em>",
        "<sub>1</sub><sub>2</sub><sup>3</sup><sup>4</sup>",
        "<p>plain</p>",
        "</s><s></s><s>",
    ] {
        let once = merge_adjacent(html);
        assert_eq!(merge_adjacent(&once), once);
        for tag in ["em", "strong", "u", "s", "sub", "sup", "code"] {
            assert!(!once.contains(&format!("</{tag}><{tag}>")), "{once}");
        }
    }
}

#[test]
fn wrap_breaks_at_the_last_space() {
    assert_eq!(wrap("<p>one two three four five</p>", 10), "<p>one two\nthree four\nfive</p>");
    assert_eq!(
        wrap("<p>alpha beta gamma</p>\n\n<p>delta</p>", 12),
        "<p>alpha\nbeta\ngamma</p>\n\n<p>delta</p>"
    );
    assert_eq!(wrap("<p>a  b</p>", 3), "<p>a\nb</p>");
}

#[test]
fn wrap_never_splits_a_tag() {
    assert_eq!(
        wrap("<p><a href=\"https://example.com/very/long\">x y</a> z</p>", 8),
        "<p><a href=\"https://example.com/very/long\">x\ny</a>\nz</p>"
    );
}

#[test]
fn wrap_zero_leaves_the_markup_alone() {
    let html = "<p>one two three</p>\n\n<p>x</p>";
    assert_eq!(wrap(html, 0), html);
}

#[test]
fn wrap_changes_only_spacing() {
    for (html, limit) in [
        ("<p>one two three four five</p>", 10),
        ("<p>alpha beta gamma</p>\n\n<p>delta</p>", 4),
        ("<pre><code>  a b\n c</code></pre>\n\n<p>a b c d e f g</p>", 3),
        ("<p>   leading spaces</p>", 1),
    ] {
        assert_eq!(printed(&wrap(html, limit)), printed(html));
    }
}

#[test]
fn strip_newlines_joins_everything_outside_code() {
    assert_eq!(
        strip_newlines("<p>a</p>\n\n<pre><code>x\ny</code></pre>\n\n<p>b\nc</p>"),
        "<p>a</p><pre><code>x\ny</code></pre><p>bc</p>"
    );
    let no_code = "<h1>T</h1>\n\n<ul>\n<li>a</li>\n</ul>\n\n";
    assert!(!strip_newlines(no_code).contains('\n'));
    assert_eq!(strip_newlines(no_code), no_code.replace('\n', ""));
}

#[test]
fn layout_body_picks_the_mode_by_width() {
    let body = "<p>one two three four five</p>\n\n<p>x</p>\n\n";
    assert_eq!(layout_body(body, 0), "<p>one two three four five</p><p>x</p>");
    assert_eq!(layout_body(body, 10), "<p>one two\nthree four\nfive</p>\n\n<p>x</p>\n\n");
}

#[test]
fn document_wraps_the_fragment() {
    assert_eq!(
        wrap_document("<p>x</p>\n\n", "My <Post> & \u{2019}s"),
        "<!DOCTYPE html>\n<html lang=\"en\">\n<head>\n<meta charset=\"utf-8\">\n\
         <title>My &lt;Post&gt; &amp; 's</title>\n</head>\n<body>\n<p>x</p>\n</body>\n</html>\n"
    );
}

#[test]
fn build_document_with_and_without_wrapping() {
    let body = "<p>a b</p>\n\n<p>c</p>\n\n";
    assert_eq!(
        build_document(body, "post", 0),
        "<!DOCTYPE html>\n<html lang=\"en\">\n<head>\n<meta charset=\"utf-8\">\n\
         <title>post</title>\n</head>\n<body>\n<p>a b</p><p>c</p>\n</body>\n</html>\n"
    );
    assert_eq!(
        build_document(body, "post", 90),
        "<!DOCTYPE html>\n<html lang=\"en\">\n<head>\n<meta charset=\"utf-8\">\n\
         <title>post</title>\n</head>\n<body>\n<p>a b</p>\n\n<p>c</p>\n</body>\n</html>\n"
    );
}

#[test]
fn escaping_for_text_and_attributes() {
    assert_eq!(escape("a & b < c > d \"e\""), "a &amp; b &lt; c &gt; d \"e\"");
    assert_eq!(escape_attr("say \"hi\" & go"), "say &quot;hi&quot; &amp; go");
    assert_eq!(escape_text("\u{2018}x\u{2019} \u{201C}y\u{201D}", false), "'x' \"y\"");
    assert_eq!(escape_text("\u{2013}\u{2014}\u{2026}\u{00A0}", true), "&ndash;&mdash;&hellip;&nbsp;");
    assert_eq!(escape_text("a\r\nb", false), "a  b");
    assert_eq!(escape_text("a\r\nb", true), "a\r\nb");
}

#[test]
fn escaped_text_never_holds_markup() {
    for s in ["<script>", "a>b", "x\ny\tz\r", "\u{2019}<&>\u{201D}"] {
        let e = escape_text(s, false);
        assert!(!e.contains('<') && !e.contains('>'), "{e}");
        assert!(!e.contains('\n') && !e.contains('\t') && !e.contains('\r'), "{e}");
        assert!(!e.contains('\u{2019}') && !e.contains('\u{201D}'), "{e}");
        assert!(!escape_attr(s).contains('"'));
    }
}

#[test]
fn code_after_a_pre_tag_is_copied_verbatim() {
    let a = "<p>one two three</p>\n\n<pre><code>";
    let b = "    let total = a + b + c + d;\n  return total;\n";
    let whole = format!("{a}{b}");
    assert_eq!(wrap(&whole, 5), format!("{}{b}", wrap(a, 5)));
    assert_eq!(strip_newlines(&whole), format!("{}{b}", strip_newlines(a)));
}

#[test]
fn spaces_inside_code_are_never_break_points() {
    assert_eq!(wrap("<pre><code>a b</code></pre>", 20), "<pre><code>a b</code></pre>");
    // a break may still fall before the block, at a space read outside it
    assert_eq!(
        wrap("x y <pre><code>a b c d e f</code></pre>", 6),
        "x y\n<pre><code>a b c d e f</code></pre>"
    );
}

#[test]
fn attribute_escaping_example() {
    assert_eq!(escape_attr("a\"b<c&\u{201C}"), "a&quot;b&lt;c&amp;&quot;");
    for s in ["<a href=\"x\">", "1 > 0", "\u{201D}"] {
        let e = escape_attr(s);
        assert!(!e.contains('"') && !e.contains('<') && !e.contains('>'), "{e}");
    }
}

#[test]
fn wrapping_never_removes_newlines() {
    for (html, limit) in [
        ("<p>a b</p>\n\n<p>c d e f g</p>\n", 2),
        ("\n\n\n", 1),
        ("<pre><code>x\ny z</code></pre>\n<p>one two</p>", 3),
    ] {
        let out = wrap(html, limit);
        assert!(out.matches('\n').count() >= html.matches('\n').count(), "{out:?}");
    }
}

#[test]
fn wrapped_lines_fit_unless_unbreakable() {
    for (text, limit) in [
        ("one two three four five six seven", 7),
        ("averyveryverylongword and more words", 5),
        ("a b\nccccccccccc d e f\n  g", 4),
    ] {
        for line in wrap(text, limit).split('\n') {
            assert!(line.chars().count() <= limit || !line.contains(' '), "{line:?}");
        }
    }
}
