use wordtohtml::convert::run_flag;
use wordtohtml::xml::{XmlAttr, XmlTag};
use wordtohtml::cli::{parse_args, ArgError, Command, DEFAULT_WRAP};
use wordtohtml::styles::{heading_level, is_mono_font, is_mono_style, is_pre_style, normalize_style};
use wordtohtml::symbols::{table_for, to_char, visible, SymbolFont};

fn args(list: &[&str]) -> Vec<String> {
    list.iter().map(|s| s.to_string()).collect()
}

fn options(list: &[&str]) -> (String, usize, bool) {
    match parse_args(&args(list)) {
        Ok(Command::Convert(o)) => (o.input, o.wrap, o.output),
        Ok(Command::Help) => panic!("unexpected help"),
        Err(e) => panic!("unexpected error: {}", e.message()),
    }
}

fn error(list: &[&str]) -> String {
    match parse_args(&args(list)) {
        Err(e) => e.message(),
        Ok(_) => panic!("expected an error"),
    }
}

#[test]
fn input_with_defaults() {
    assert_eq!(options(&["mypost.docx"]), ("mypost.docx".to_string(), DEFAULT_WRAP, false));
    assert_eq!(DEFAULT_WRAP, 90);
}

#[test]
fn wrap_and_output_options() {
    assert_eq!(options(&["-w", "60", "a.docx"]), ("a.docx".to_string(), 60, false));
    assert_eq!(options(&["a.docx", "--wrap", "0"]), ("a.docx".to_string(), 0, false));
    assert_eq!(options(&["-o", "a.docx"]), ("a.docx".to_string(), 90, true));
    assert_eq!(options(&["-o", "-w", "0", "a.docx"]), ("a.docx".to_string(), 0, true));
    assert_eq!(options(&["--output", "a.docx", "-w", "5", "-w", "7"]), ("a.docx".to_string(), 7, true));
    assert_eq!(options(&["-"]), ("-".to_string(), 90, false));
}

#[test]
fn short_and_long_forms_agree() {
    for (short, long) in [
        (vec!["-w", "60", "x.docx"], vec!["--wrap", "60", "x.docx"]),
        (vec!["-o", "x.docx"], vec!["--output", "x.docx"]),
    ] {
        assert_eq!(options(&short), options(&long));
    }
    assert!(matches!(parse_args(&args(&["-h"])), Ok(Command::Help)));
    assert!(matches!(parse_args(&args(&["--help"])), Ok(Command::Help)));
}

#[test]
fn help_wins_over_later_arguments() {
    assert!(matches!(parse_args(&args(&["a.docx", "-h", "-x"])), Ok(Command::Help)));
    // but an earlier error decides first
    assert_eq!(error(&["-x", "-h"]), "unknown option: -x");
}

#[test]
fn argument_errors() {
    assert_eq!(error(&["-w"]), "--wrap requires a value");
    assert!(matches!(parse_args(&args(&["a", "--wrap"])), Err(ArgError::MissingWrapValue)));
    assert_eq!(error(&["-w", "abc", "a.docx"]), "invalid wrap width: abc");
    assert_eq!(error(&["-w", "-1", "a.docx"]), "invalid wrap width: -1");
    assert_eq!(error(&["-w", "99999999999999999999999", "a"]), "invalid wrap width: 99999999999999999999999");
    assert_eq!(error(&["--verbose", "a.docx"]), "unknown option: --verbose");
    assert_eq!(error(&["a.docx", "b.docx"]), "unexpected extra argument: b.docx");
    assert_eq!(error(&[]), "missing <path-to-docx>");
    assert_eq!(error(&["-o"]), "missing <path-to-docx>");
    assert!(matches!(parse_args(&args(&["-q"])), Err(ArgError::UnknownOption(ref a)) if a == "-q"));
    assert!(matches!(parse_args(&args(&["a", "b"])), Err(ArgError::ExtraArgument(ref a)) if a == "b"));
    assert!(matches!(parse_args(&args(&["-w", "x"])), Err(ArgError::InvalidWrap(ref a)) if a == "x"));
    assert!(matches!(parse_args(&args(&[])), Err(ArgError::MissingInput)));
}

#[test]
fn wrap_width_accepts_a_leading_plus() {
    // `str::parse::<usize>` accepts one leading `+`.
    assert_eq!(options(&["-w", "+12", "a"]), ("a".to_string(), 12, false));
    assert_eq!(error(&["-w", "", "a"]), "invalid wrap width: ");
    assert_eq!(error(&["-w", "+", "a"]), "invalid wrap width: +");
}

#[test]
fn heading_levels() {
    assert_eq!(heading_level("Heading1"), 1);
    assert_eq!(heading_level("heading 2"), 2);
    assert_eq!(heading_level("Heading-3"), 3);
    assert_eq!(heading_level("Heading_4"), 4);
    assert_eq!(heading_level("h5"), 5);
    assert_eq!(heading_level("HEADING1"), 1);
    assert_eq!(heading_level("  Heading 2  "), 2);
    assert_eq!(heading_level("Heading12"), 6);
    assert_eq!(heading_level("Heading"), 0);
    assert_eq!(heading_level("Title"), 0);
    assert_eq!(heading_level("Subheading1"), 0);
    assert_eq!(heading_level("titreé"), 0);
    assert_eq!(heading_level("Heading 300"), 0);
}

#[test]
fn style_names_are_normalised() {
    assert_eq!(normalize_style("HTML Preformatted"), "htmlpreformatted");
    assert_eq!(normalize_style("Source-Code"), "sourcecode");
    assert_eq!(normalize_style("ÉCRIT_à 1"), "écrità1");
    assert!(is_pre_style("source_code"));
    assert!(is_pre_style("Macro Text"));
    assert!(!is_pre_style("Normal"));
    assert!(is_mono_style("Verbatim Char"));
    assert!(is_mono_style("Inline-Code"));
    assert!(!is_mono_style("Quote"));
}

#[test]
fn mono_font_hints() {
    assert!(is_mono_font("  DejaVu Sans Mono "));
    assert!(is_mono_font("Lucida Console"));
    assert!(is_mono_font("m+ 1m"));
    assert!(is_mono_font("INPUT"));
    assert!(!is_mono_font("Input Serif"));
    assert!(!is_mono_font("Arial"));
}

#[test]
fn symbol_fonts_by_name() {
    let name = |s: &str| s.chars().collect::<Vec<char>>();
    assert_eq!(table_for(&name(" SYMBOL ")), Some(SymbolFont::Symbol));
    assert_eq!(table_for(&name("Wingdings2")), Some(SymbolFont::Wingdings2));
    assert_eq!(table_for(&name("wingdings 3")), Some(SymbolFont::Wingdings3));
    assert_eq!(table_for(&name("Webdings")), Some(SymbolFont::Webdings));
    assert_eq!(table_for(&name("Arial")), None);
}

#[test]
fn symbol_indices_and_fallbacks() {
    assert_eq!(to_char("Symbol", 0x61), Some('\u{03B1}'));
    // an unknown font keeps the index as a character, unless it is a control
    assert_eq!(to_char("Arial", 0xF041), Some('A'));
    assert_eq!(to_char("Arial", 0x07), None);
    assert_eq!(to_char("Arial", 0x85), None);
    // a code point outside the private-use range passes through as it is
    assert_eq!(to_char("Symbol", 0x1F600), Some('\u{1F600}'));
    assert_eq!(to_char("Symbol", 0xD800), None);
    assert_eq!(to_char("Symbol", 0x110000), None);
    assert_eq!(visible(0x41), Some('A'));
    assert_eq!(visible(0x1F), None);
    assert_eq!(visible(0xA0), Some('\u{00A0}'));
}

#[test]
fn resolved_glyphs_are_never_control_characters() {
    for font in ["Symbol", "Wingdings", "Wingdings 2", "Wingdings 3", "Webdings", "Arial"] {
        for code in (0u32..=0xFF).chain(0xF000..=0xF0FF) {
            if let Some(c) = to_char(font, code) {
                assert!(!c.is_control(), "{font} {code:#x} gave {c:?}");
            }
        }
    }
}

#[test]
fn normalising_twice_changes_nothing() {
    for style in ["HTML Preformatted", "html-preformatted", "Source_Code 2", "Verbatim Char"] {
        let once = normalize_style(style);
        assert_eq!(normalize_style(&once), once);
    }
    assert!(is_pre_style("html-preformatted"));
    assert!(is_pre_style(&normalize_style("HTML Preformatted")));
}

#[test]
fn run_flags() {
    let tag = |val: Option<&str>| XmlTag {
        name: "w:b".chars().collect(),
        attrs: val
            .map(|v| {
                vec![XmlAttr {
                    key: "w:val".chars().collect(),
                    value: v.chars().collect(),
                    raw: v.chars().collect(),
                }]
            })
            .unwrap_or_default(),
    };
    assert!(run_flag(&tag(None)));
    assert!(run_flag(&tag(Some("1"))));
    assert!(run_flag(&tag(Some("true"))));
    assert!(!run_flag(&tag(Some("0"))));
    assert!(!run_flag(&tag(Some("false"))));
    assert!(!run_flag(&tag(Some("off"))));
    assert!(!run_flag(&tag(Some("none"))));
}
