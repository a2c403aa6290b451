use wordtohtml::convert::parse_document;
use wordtohtml::tables::{list_tag, parse_numbering, parse_rels, ListTag, Numbering, Relationships};

const W: &str = "xmlns:w=\"http://schemas.openxmlformats.org/wordprocessingml/2006/main\" \
                 xmlns:r=\"http://schemas.openxmlformats.org/officeDocument/2006/relationships\"";

fn document_xml(body: &str) -> String {
    format!("<?xml version=\"1.0\" encoding=\"UTF-8\" standalone=\"yes\"?><w:document {W}><w:body>{body}</w:body></w:document>")
}

fn convert(body: &str) -> String {
    parse_document(&document_xml(body), &Relationships::new(), Numbering::new())
}

fn para(text: &str) -> String {
    format!("<w:p><w:r><w:t>{text}</w:t></w:r></w:p>")
}

fn chars(s: &str) -> Vec<char> {
    s.chars().collect()
}

#[test]
fn plain_paragraph() {
    assert_eq!(convert(&para("Hello")), "<p>Hello</p>\n\n");
}

#[test]
fn paragraphs_are_separated_by_a_blank_line() {
    let body = format!("{}{}", para("one"), para("two"));
    assert_eq!(convert(&body), "<p>one</p>\n\n<p>two</p>\n\n");
}

#[test]
fn headings_take_their_level_from_the_style() {
    let h = |style: &str, text: &str| {
        format!("<w:p><w:pPr><w:pStyle w:val=\"{style}\"/></w:pPr><w:r><w:t>{text}</w:t></w:r></w:p>")
    };
    assert_eq!(convert(&h("Heading1", "Title")), "<h1>Title</h1>\n\n");
    assert_eq!(convert(&h("heading 3", "Sub")), "<h3>Sub</h3>\n\n");
    assert_eq!(convert(&h("Heading9", "Deep")), "<h6>Deep</h6>\n\n");
    assert_eq!(convert(&h("Title", "Plain")), "<p>Plain</p>\n\n");
}

#[test]
fn empty_paragraphs_are_skipped() {
    let body = format!("<w:p/><w:p></w:p>{}<w:p><w:r></w:r></w:p>", para("x"));
    assert_eq!(convert(&body), "<p>x</p>\n\n");
}

#[test]
fn run_formatting_nests_in_a_fixed_order() {
    let body = "<w:p><w:r><w:rPr><w:b/><w:i/><w:u w:val=\"single\"/><w:strike/></w:rPr><w:t>x</w:t></w:r></w:p>";
    assert_eq!(convert(body), "<p><s><u><strong><em>x</em></strong></u></s></p>\n\n");
}

#[test]
fn explicit_off_values_disable_formatting() {
    let body = "<w:p><w:r><w:rPr><w:b w:val=\"0\"/><w:i w:val=\"false\"/></w:rPr><w:t>x</w:t></w:r></w:p>";
    assert_eq!(convert(body), "<p>x</p>\n\n");
}

#[test]
fn character_styles_strong_and_emphasis() {
    let body = "<w:p><w:r><w:rPr><w:rStyle w:val=\"Strong\"/></w:rPr><w:t>a</w:t></w:r>\
                <w:r><w:rPr><w:rStyle w:val=\"Emphasis\"/></w:rPr><w:t>b</w:t></w:r></w:p>";
    assert_eq!(convert(body), "<p><strong>a</strong><em>b</em></p>\n\n");
}

#[test]
fn subscript_and_superscript() {
    let body = "<w:p><w:r><w:t>H</w:t></w:r><w:r><w:rPr><w:vertAlign w:val=\"subscript\"/></w:rPr><w:t>2</w:t></w:r>\
                <w:r><w:t>O x</w:t></w:r><w:r><w:rPr><w:vertAlign w:val=\"superscript\"/></w:rPr><w:t>2</w:t></w:r></w:p>";
    assert_eq!(convert(body), "<p>H<sub>2</sub>O x<sup>2</sup></p>\n\n");
}

#[test]
fn adjacent_identical_formatting_is_merged() {
    let body = "<w:p><w:r><w:rPr><w:i/></w:rPr><w:t>very</w:t></w:r>\
                <w:r><w:rPr><w:i/></w:rPr><w:t xml:space=\"preserve\"> </w:t></w:r>\
                <w:r><w:rPr><w:i/></w:rPr><w:t>long</w:t></w:r></w:p>";
    assert_eq!(convert(body), "<p><em>very long</em></p>\n\n");
}

#[test]
fn text_is_escaped_and_punctuation_cleaned_up() {
    let body = para("a &lt; b &amp; c \u{2019}x\u{2018} \u{201C}q\u{201D} \u{2013} \u{2014} \u{2026}\u{00A0}");
    assert_eq!(
        convert(&body),
        "<p>a &lt; b &amp; c 'x' \"q\" &ndash; &mdash; &hellip;&nbsp;</p>\n\n"
    );
}

#[test]
fn breaks_and_tabs_outside_code() {
    let body = "<w:p><w:r><w:t>a</w:t><w:br/><w:t>b</w:t><w:tab/><w:t>c</w:t><w:cr/></w:r></w:p>";
    assert_eq!(convert(body), "<p>a<br>b c<br></p>\n\n");
}

#[test]
fn nested_lists_follow_the_numbering() {
    let numbering_xml = format!(
        "<w:numbering {W}>\
         <w:abstractNum w:abstractNumId=\"0\">\
         <w:lvl w:ilvl=\"0\"><w:numFmt w:val=\"bullet\"/></w:lvl>\
         <w:lvl w:ilvl=\"1\"><w:numFmt w:val=\"decimal\"/></w:lvl>\
         </w:abstractNum>\
         <w:num w:numId=\"1\"><w:abstractNumId w:val=\"0\"/></w:num>\
         </w:numbering>"
    );
    let numbering = parse_numbering(&numbering_xml);
    let item = |level: u8, text: &str| {
        format!("<w:p><w:pPr><w:numPr><w:ilvl w:val=\"{level}\"/><w:numId w:val=\"1\"/></w:numPr></w:pPr><w:r><w:t>{text}</w:t></w:r></w:p>")
    };
    let body = format!("{}{}{}{}", item(0, "a"), item(1, "b"), item(0, "c"), para("end"));
    let html = parse_document(&document_xml(&body), &Relationships::new(), numbering);
    assert_eq!(
        html,
        "<ul>\n<li>a<ol>\n<li>b</li>\n</ol>\n</li>\n<li>c</li>\n</ul>\n\n<p>end</p>\n\n"
    );
}

#[test]
fn a_new_numbering_instance_restarts_the_list() {
    let item = |id: u8, text: &str| {
        format!("<w:p><w:pPr><w:numPr><w:ilvl w:val=\"0\"/><w:numId w:val=\"{id}\"/></w:numPr></w:pPr><w:r><w:t>{text}</w:t></w:r></w:p>")
    };
    let body = format!("{}{}{}", item(1, "a"), item(1, "b"), item(2, "c"));
    assert_eq!(
        convert(&body),
        "<ul>\n<li>a</li>\n<li>b</li>\n</ul>\n<ul>\n<li>c</li>\n</ul>\n\n"
    );
}

#[test]
fn tables_with_a_header_row() {
    let cell = |text: &str| format!("<w:tc>{}</w:tc>", para(text));
    let body = format!(
        "<w:tbl><w:tblPr><w:tblLook w:firstRow=\"1\"/></w:tblPr>\
         <w:tr>{}{}</w:tr>\
         <w:tr><w:tc>{}{}</w:tc>{}</w:tr></w:tbl>",
        cell("H1"),
        cell("H2"),
        para("D"),
        para("E"),
        cell("F")
    );
    assert_eq!(
        convert(&body),
        "<table>\n<thead>\n<tr>\n<th>H1</th>\n<th>H2</th>\n</tr>\n</thead>\n\
         <tbody>\n<tr>\n<td>D E</td>\n<td>F</td>\n</tr>\n</tbody>\n</table>\n\n"
    );
}

#[test]
fn tables_without_a_header_row() {
    let body = format!("<w:tbl><w:tr><w:tc>{}</w:tc></w:tr></w:tbl>", para("x"));
    assert_eq!(
        convert(&body),
        "<table>\n<tbody>\n<tr>\n<td>x</td>\n</tr>\n</tbody>\n</table>\n\n"
    );
}

#[test]
fn repeated_header_rows_are_marked_by_tbl_header() {
    let body = format!(
        "<w:tbl><w:tr><w:trPr><w:tblHeader/></w:trPr><w:tc>{}</w:tc></w:tr><w:tr><w:tc>{}</w:tc></w:tr></w:tbl>",
        para("h"),
        para("d")
    );
    assert_eq!(
        convert(&body),
        "<table>\n<thead>\n<tr>\n<th>h</th>\n</tr>\n</thead>\n<tbody>\n<tr>\n<td>d</td>\n</tr>\n</tbody>\n</table>\n\n"
    );
}

#[test]
fn hyperlinks_resolve_through_relationships() {
    let rels = parse_rels(
        "<Relationships xmlns=\"http://schemas.openxmlformats.org/package/2006/relationships\">\
         <Relationship Id=\"rId5\" Type=\"hyperlink\" Target=\"https://example.com/?a=1&amp;b=2\" TargetMode=\"External\"/>\
         </Relationships>",
    );
    let body = "<w:p><w:hyperlink r:id=\"rId5\"><w:r><w:t>site</w:t></w:r></w:hyperlink></w:p>";
    let html = parse_document(&document_xml(body), &rels, Numbering::new());
    assert_eq!(html, "<p><a href=\"https://example.com/?a=1&amp;b=2\">site</a></p>\n\n");
}

#[test]
fn internal_links_use_the_anchor() {
    let body = "<w:p><w:hyperlink w:anchor=\"_Toc1\"><w:r><w:t>Intro</w:t></w:r></w:hyperlink></w:p>";
    assert_eq!(convert(body), "<p><a href=\"#_Toc1\">Intro</a></p>\n\n");
}

#[test]
fn unknown_relationships_keep_the_text() {
    let body = "<w:p><w:hyperlink r:id=\"rId9\"><w:r><w:t>text</w:t></w:r></w:hyperlink></w:p>";
    assert_eq!(convert(body), "<p>text</p>\n\n");
}

#[test]
fn symbol_glyphs_become_characters() {
    let body = "<w:p><w:r><w:sym w:font=\"Wingdings\" w:char=\"F04A\"/></w:r>\
                <w:r><w:sym w:font=\"Symbol\" w:char=\"F03C\"/></w:r></w:p>";
    assert_eq!(convert(body), "<p>\u{1F642}&lt;</p>\n\n");
}

#[test]
fn monospace_paragraph_becomes_a_code_block() {
    let body = "<w:p><w:r><w:rPr><w:rFonts w:ascii=\"Consolas\" w:hAnsi=\"Consolas\"/></w:rPr>\
                <w:t xml:space=\"preserve\">let x = 1;</w:t></w:r></w:p>";
    assert_eq!(convert(body), "<pre><code>let x = 1;</code></pre>\n\n");
}

#[test]
fn inline_code_in_prose() {
    let body = "<w:p><w:r><w:t xml:space=\"preserve\">Use </w:t></w:r>\
                <w:r><w:rPr><w:rStyle w:val=\"HTMLCode\"/></w:rPr><w:t>x</w:t></w:r></w:p>";
    assert_eq!(convert(body), "<p>Use <code>x</code></p>\n\n");
}

#[test]
fn preformatted_style_keeps_breaks_and_tabs() {
    let body = "<w:p><w:pPr><w:pStyle w:val=\"HTMLPreformatted\"/></w:pPr>\
                <w:r><w:t>a</w:t><w:br/><w:tab/><w:t>b &lt; c</w:t></w:r></w:p>";
    assert_eq!(convert(body), "<pre><code>a\n\tb &lt; c</code></pre>\n\n");
}

#[test]
fn empty_code_block_keeps_a_newline() {
    let body = "<w:p><w:pPr><w:pStyle w:val=\"Code\"/></w:pPr></w:p>";
    assert_eq!(convert(body), "<pre><code>\n</code></pre>\n\n");
}

#[test]
fn lists_close_before_a_table() {
    let body = format!(
        "<w:p><w:pPr><w:numPr><w:ilvl w:val=\"0\"/><w:numId w:val=\"3\"/></w:numPr></w:pPr><w:r><w:t>i</w:t></w:r></w:p>\
         <w:tbl><w:tr><w:tc>{}</w:tc></w:tr></w:tbl>",
        para("c")
    );
    assert_eq!(
        convert(&body),
        "<ul>\n<li>i</li>\n</ul>\n\n<table>\n<tbody>\n<tr>\n<td>c</td>\n</tr>\n</tbody>\n</table>\n\n"
    );
}

#[test]
fn lists_still_open_at_the_end_are_closed() {
    let body = "<w:p><w:pPr><w:numPr><w:ilvl w:val=\"1\"/><w:numId w:val=\"4\"/></w:numPr></w:pPr><w:r><w:t>deep</w:t></w:r></w:p>";
    assert_eq!(
        convert(body),
        "<ul>\n<ul>\n<li>deep</li>\n</ul>\n</li>\n</ul>\n\n"
    );
}

#[test]
fn relationships_map_ids_to_targets() {
    let rels = parse_rels(
        "<Relationships><Relationship Id=\"rId1\" Target=\"styles.xml\"/>\
         <Relationship Target=\"no-id.xml\"/>\
         <Relationship Id=\"rId2\" Target=\"a&amp;b\"/></Relationships>",
    );
    assert_eq!(rels.get(&chars("rId1")), Some(chars("styles.xml")));
    assert_eq!(rels.get(&chars("rId2")), Some(chars("a&b")));
    assert_eq!(rels.get(&chars("rId3")), None);
    assert_eq!(rels.get(&chars("")), None);
}

#[test]
fn relationships_insert_then_get() {
    let mut rels = Relationships::new();
    rels.insert(chars("a"), chars("x"));
    rels.insert(chars("a"), chars("y"));
    assert_eq!(rels.get(&chars("a")), Some(chars("y")));
}

#[test]
fn numbering_maps_levels_to_list_tags() {
    let numbering = parse_numbering(
        "<w:numbering>\
         <w:abstractNum w:abstractNumId=\"7\">\
         <w:lvl w:ilvl=\"0\"><w:numFmt w:val=\"decimal\"/></w:lvl>\
         <w:lvl w:ilvl=\"2\"><w:numFmt w:val=\"none\"/></w:lvl>\
         </w:abstractNum>\
         <w:num w:numId=\"5\"><w:abstractNumId w:val=\"7\"/></w:num>\
         <w:num w:numId=\"6\"><w:abstractNumId w:val=\"99\"/></w:num>\
         </w:numbering>",
    );
    assert_eq!(
        numbering.get(&chars("5")),
        Some(&vec![ListTag::Ol, ListTag::Ul, ListTag::Ul])
    );
    assert_eq!(numbering.get(&chars("6")), Some(&vec![]));
    assert_eq!(numbering.get(&chars("7")), None);
    let id = chars("5");
    assert_eq!(list_tag(&numbering, Some(&id), 0), ListTag::Ol);
    assert_eq!(list_tag(&numbering, Some(&id), 9), ListTag::Ul);
    assert_eq!(list_tag(&numbering, None, 0), ListTag::Ul);
    assert_eq!(ListTag::Ol.name(), "ol");
}

#[test]
fn an_unknown_relationship_falls_back_to_the_anchor() {
    let body = "<w:p><w:hyperlink r:id=\"rId9\" w:anchor=\"_Ref2\"><w:r><w:t>see</w:t></w:r></w:hyperlink></w:p>";
    assert_eq!(convert(body), "<p><a href=\"#_Ref2\">see</a></p>\n\n");
    let body = "<w:p><w:hyperlink w:anchor=\"\"><w:r><w:t>plain</w:t></w:r></w:hyperlink></w:p>";
    assert_eq!(convert(body), "<p>plain</p>\n\n");
}
