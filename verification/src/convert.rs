//! The conversion of `word/document.xml` to HTML: a single pass over the XML
//! events that accumulates each paragraph's text run by run, wraps run
//! formatting in tags when a run ends, and tracks list and table state so
//! consecutive items and rows are grouped into one element.
use vstd::prelude::*;

use crate::escape::{escape_chars, escaped, escaped_attr};
use crate::layout::{merge_adjacent, merged};
use crate::styles::{
    heading_level, heading_of, is_mono_font, is_mono_style, is_pre_style, mono_font_name,
    mono_style_name, normalized_style, pre_style_name,
};
use crate::symbols::{symbol_char, to_char};
use crate::tables::{
    byte_or_zero, list_tag, list_tag_name, list_tag_of, ListTag, Numbering, Relationships,
};
use crate::text::{
    chars_eq, chars_eq_str, copy_chars, is_blank, parse_hex_u32, parse_u8, parse_unsigned, push_chars,
    push_str, replace_all, replace_str, string_of, to_lowercase, trim, trim_chars,
    unicode_lowercase,
};
use crate::xml::{
    attr_lookup, attr_value, read_xml_events, xml_events, AttrView, EventView, TagView, XmlEvent,
    XmlTag,
};

verus! {

// ---------------------------------------------------------------------------
// State
// ---------------------------------------------------------------------------

/// An open list level: its indent level, its list element, and the Word
/// numbering id that opened it, so a change of id starts a fresh list.
pub struct OpenList {
    pub level: u8,
    pub tag: ListTag,
    pub num_id: Option<Vec<char>>,
}

pub struct OpenListView {
    pub level: u8,
    pub tag: ListTag,
    pub num_id: Option<Seq<char>>,
}

pub open spec fn opt_chars(o: Option<Vec<char>>) -> Option<Seq<char>> {
    match o {
        Some(v) => Some(v@),
        None => None,
    }
}

impl View for OpenList {
    type V = OpenListView;

    open spec fn view(&self) -> OpenListView {
        OpenListView { level: self.level, tag: self.tag, num_id: opt_chars(self.num_id) }
    }
}

impl DeepView for OpenList {
    type V = OpenListView;

    open spec fn deep_view(&self) -> OpenListView {
        self@
    }
}

/// Everything the converter tracks while it reads `document.xml`.
pub struct State {
    /// The HTML produced so far.
    pub html: Vec<char>,
    /// The current paragraph's content.
    pub paragraph: Vec<char>,
    /// The current paragraph's heading level (0: none).
    pub heading: u8,
    /// The target of the hyperlink being read, if any.
    pub href: Option<Vec<char>>,
    /// The content of the hyperlink being read.
    pub link_text: Vec<char>,
    /// Inside a `w:t` text element.
    pub in_text: bool,
    /// The current run's text and its formatting, flushed at the end of the
    /// run.
    pub run: Vec<char>,
    pub bold: bool,
    pub italic: bool,
    pub underline: bool,
    pub strike: bool,
    pub subscript: bool,
    pub superscript: bool,
    pub mono: bool,
    /// Paragraph-level code state: `pre` is set by a preformatted/code
    /// paragraph style; `mono_only` records whether every text run so far
    /// used a monospace font or code character style, so a fully monospace
    /// paragraph can become a `<pre><code>` block instead of prose with
    /// inline `<code>` tags.
    pub pre: bool,
    pub mono_only: bool,
    pub runs: usize,
    /// List state: `num_id`/`num_level` are set from the current paragraph's
    /// numbering and consumed when that paragraph closes.
    pub numbering: Numbering,
    pub num_id: Option<Vec<char>>,
    pub num_level: u8,
    pub list_stack: Vec<OpenList>,
    /// Table state. Contents are buffered so rows can be classified as header
    /// or body before anything is flushed to the output.
    pub in_table: bool,
    pub table: Vec<char>,
    pub row: Vec<char>,
    pub cell: Vec<char>,
    pub row_header: bool,
    pub table_header: bool,
    pub first_row_seen: bool,
    pub tbody_open: bool,
}

#[verifier::ext_equal]
pub struct DocState {
    pub html: Seq<char>,
    pub paragraph: Seq<char>,
    pub heading: u8,
    pub href: Option<Seq<char>>,
    pub link_text: Seq<char>,
    pub in_text: bool,
    pub run: Seq<char>,
    pub bold: bool,
    pub italic: bool,
    pub underline: bool,
    pub strike: bool,
    pub subscript: bool,
    pub superscript: bool,
    pub mono: bool,
    pub pre: bool,
    pub mono_only: bool,
    pub runs: nat,
    pub numbering: Map<Seq<char>, Seq<ListTag>>,
    pub num_id: Option<Seq<char>>,
    pub num_level: u8,
    pub list_stack: Seq<OpenListView>,
    pub in_table: bool,
    pub table: Seq<char>,
    pub row: Seq<char>,
    pub cell: Seq<char>,
    pub row_header: bool,
    pub table_header: bool,
    pub first_row_seen: bool,
    pub tbody_open: bool,
}

impl View for State {
    type V = DocState;

    open spec fn view(&self) -> DocState {
        DocState {
            html: self.html@,
            paragraph: self.paragraph@,
            heading: self.heading,
            href: opt_chars(self.href),
            link_text: self.link_text@,
            in_text: self.in_text,
            run: self.run@,
            bold: self.bold,
            italic: self.italic,
            underline: self.underline,
            strike: self.strike,
            subscript: self.subscript,
            superscript: self.superscript,
            mono: self.mono,
            pre: self.pre,
            mono_only: self.mono_only,
            runs: self.runs as nat,
            numbering: self.numbering@,
            num_id: opt_chars(self.num_id),
            num_level: self.num_level,
            list_stack: self.list_stack.deep_view(),
            in_table: self.in_table,
            table: self.table@,
            row: self.row@,
            cell: self.cell@,
            row_header: self.row_header,
            table_header: self.table_header,
            first_row_seen: self.first_row_seen,
            tbody_open: self.tbody_open,
        }
    }
}

/// The state at the start of a document.
pub open spec fn initial_state(numbering: Map<Seq<char>, Seq<ListTag>>) -> DocState {
    DocState {
        html: seq![],
        paragraph: seq![],
        heading: 0,
        href: None,
        link_text: seq![],
        in_text: false,
        run: seq![],
        bold: false,
        italic: false,
        underline: false,
        strike: false,
        subscript: false,
        superscript: false,
        mono: false,
        pre: false,
        mono_only: false,
        runs: 0,
        numbering,
        num_id: None,
        num_level: 0,
        list_stack: seq![],
        in_table: false,
        table: seq![],
        row: seq![],
        cell: seq![],
        row_header: false,
        table_header: false,
        first_row_seen: false,
        tbody_open: false,
    }
}

impl State {
    /// The state at the start of a document with the given list numbering.
    pub fn new(numbering: Numbering) -> (s: State)
        ensures
            s@ == initial_state(numbering@),
    {
        let s = State {
            html: Vec::new(),
            paragraph: Vec::new(),
            heading: 0,
            href: None,
            link_text: Vec::new(),
            in_text: false,
            run: Vec::new(),
            bold: false,
            italic: false,
            underline: false,
            strike: false,
            subscript: false,
            superscript: false,
            mono: false,
            pre: false,
            mono_only: false,
            runs: 0,
            numbering,
            num_id: None,
            num_level: 0,
            list_stack: Vec::new(),
            in_table: false,
            table: Vec::new(),
            row: Vec::new(),
            cell: Vec::new(),
            row_header: false,
            table_header: false,
            first_row_seen: false,
            tbody_open: false,
        };
        assert(s.list_stack.deep_view() =~= Seq::<OpenListView>::empty());
        s
    }
}

/// Open lists are well formed: the list at position `i` of the stack is the
/// one for indent level `i`.
pub open spec fn lists_well_formed(stack: Seq<OpenListView>) -> bool {
    forall|i: int| 0 <= i < stack.len() ==> (#[trigger] stack[i]).level == i
}

// ---------------------------------------------------------------------------
// Lists
// ---------------------------------------------------------------------------

/// The markup that closes an open list: the end of its open item and of the
/// list element.
pub open spec fn list_close_markup(tag: ListTag) -> Seq<char> {
    "</li>\n"@ + "</"@ + list_tag_name(tag) + ">\n"@
}

/// The markup that closes every list of a stack, innermost first.
pub open spec fn close_all_markup(stack: Seq<OpenListView>) -> Seq<char>
    decreases stack.len(),
{
    if stack.len() == 0 {
        seq![]
    } else {
        list_close_markup(stack.last().tag) + close_all_markup(stack.drop_last())
    }
}

/// The state after closing every open list, including the still-open last
/// item; a blank line follows them.
pub open spec fn flushed(s: DocState) -> DocState {
    if s.list_stack.len() == 0 {
        s
    } else {
        DocState {
            html: s.html + close_all_markup(s.list_stack) + "\n"@,
            list_stack: seq![],
            ..s
        }
    }
}

fn push_list_close(html: &mut Vec<char>, tag: ListTag)
    ensures
        final(html)@ == old(html)@ + list_close_markup(tag),
{
    let ghost before = html@;
    push_str(html, "</li>\n");
    push_str(html, "</");
    push_str(html, tag.name());
    push_str(html, ">\n");
    assert(html@ =~= before + list_close_markup(tag));
}

/// The HTML after closing every list of a stack (unchanged if none is open).
pub open spec fn flushed_html(html: Seq<char>, stack: Seq<OpenListView>) -> Seq<char> {
    if stack.len() == 0 {
        html
    } else {
        html + close_all_markup(stack) + "\n"@
    }
}

fn flush_list_stack(html: &mut Vec<char>, stack: &mut Vec<OpenList>)
    ensures
        final(html)@ == flushed_html(old(html)@, old(stack).deep_view()),
        final(stack).deep_view() == Seq::<OpenListView>::empty(),
{
    if stack.len() == 0 {
        assert(stack.deep_view() =~= Seq::<OpenListView>::empty());
        return ;
    }
    let ghost h0 = html@;
    let ghost st0 = stack.deep_view();
    while stack.len() > 0
        invariant
            h0 + close_all_markup(st0) == html@ + close_all_markup(stack.deep_view()),
        decreases stack.len(),
    {
        let ghost st = stack.deep_view();
        let list = stack.pop().unwrap();
        assert(stack.deep_view() =~= st.drop_last());
        let ghost h = html@;
        push_list_close(html, list.tag);
        assert(h + close_all_markup(st) =~= html@ + close_all_markup(stack.deep_view()));
    }
    assert(stack.deep_view() =~= Seq::<OpenListView>::empty());
    assert(close_all_markup(stack.deep_view()) == Seq::<char>::empty());
    assert(html@ =~= h0 + close_all_markup(st0));
    html.push('\n');
    assert(html@ =~= h0 + close_all_markup(st0) + "\n"@) by {
        reveal_strlit("\n");
    }
}

/// Close every open list, including the still-open last item.
pub fn flush_lists(state: &mut State)
    ensures
        final(state)@ == flushed(old(state)@),
{
    flush_list_stack(&mut state.html, &mut state.list_stack);
    proof {
        assert(state@ =~= flushed(old(state)@));
    }
}

/// Closes the open lists deeper than `level`: the stack and HTML after that.
pub open spec fn close_deeper(html: Seq<char>, stack: Seq<OpenListView>, level: u8) -> (
    Seq<char>,
    Seq<OpenListView>,
)
    decreases stack.len(),
{
    if stack.len() > 0 && stack.last().level > level {
        close_deeper(html + list_close_markup(stack.last().tag), stack.drop_last(), level)
    } else {
        (html, stack)
    }
}

/// Opens the missing list levels up to `level`, each with the list element
/// that the numbering gives for it.
pub open spec fn open_levels(
    html: Seq<char>,
    stack: Seq<OpenListView>,
    level: u8,
    numbering: Map<Seq<char>, Seq<ListTag>>,
    num_id: Option<Seq<char>>,
) -> (Seq<char>, Seq<OpenListView>)
    decreases level + 1 - stack.len(),
{
    if stack.len() <= level {
        let idx = stack.len() as u8;
        let t = list_tag_of(numbering, num_id, idx);
        open_levels(
            html + "<"@ + list_tag_name(t) + ">\n"@,
            stack.push(OpenListView { level: idx, tag: t, num_id }),
            level,
            numbering,
            num_id,
        )
    } else {
        (html, stack)
    }
}

/// The HTML and open lists after appending one list item at `level`: deeper
/// lists close, an item at the same level closes the previous one (and
/// restarts the list if its element or numbering instance changed), missing
/// levels open, and the item starts.
pub open spec fn list_item_parts(
    html: Seq<char>,
    stack: Seq<OpenListView>,
    numbering: Map<Seq<char>, Seq<ListTag>>,
    num_id: Option<Seq<char>>,
    level: u8,
    tag: ListTag,
    content: Seq<char>,
) -> (Seq<char>, Seq<OpenListView>) {
    let (h1, st1) = close_deeper(html, stack, level);
    let same_level = st1.len() > 0 && st1.last().level == level;
    let h2 = if same_level {
        h1 + "</li>\n"@
    } else {
        h1
    };
    let restart = same_level && (st1.last().tag != tag || st1.last().num_id != num_id);
    let (h3, st3) = if restart {
        (h2 + "</"@ + list_tag_name(st1.last().tag) + ">\n"@, st1.drop_last())
    } else {
        (h2, st1)
    };
    let (h4, st4) = open_levels(h3, st3, level, numbering, num_id);
    (h4 + "<li>"@ + content, st4)
}

/// The state after appending one list item at `level`.
pub open spec fn with_list_item(s: DocState, level: u8, tag: ListTag, content: Seq<char>) -> DocState {
    let (h, st) = list_item_parts(
        s.html,
        s.list_stack,
        s.numbering,
        s.num_id,
        level,
        tag,
        content,
    );
    DocState { html: h, list_stack: st, ..s }
}

fn emit_list_parts(
    html: &mut Vec<char>,
    stack: &mut Vec<OpenList>,
    numbering: &Numbering,
    num_id: &Option<Vec<char>>,
    level: u8,
    tag: ListTag,
    content: &Vec<char>,
)
    ensures
        (final(html)@, final(stack).deep_view()) == list_item_parts(
            old(html)@,
            old(stack).deep_view(),
            numbering@,
            opt_chars(*num_id),
            level,
            tag,
            content@,
        ),
{
    let ghost h0 = html@;
    let ghost st0 = stack.deep_view();
    let ghost id = opt_chars(*num_id);
    // Close any lists deeper than this item's level.
    while stack.len() > 0 && stack[stack.len() - 1].level > level
        invariant
            close_deeper(h0, st0, level) == close_deeper(html@, stack.deep_view(), level),
        decreases stack.len(),
    {
        let ghost st = stack.deep_view();
        let list = stack.pop().unwrap();
        assert(stack.deep_view() =~= st.drop_last());
        push_list_close(html, list.tag);
    }
    let ghost h1 = html@;
    let ghost st1 = stack.deep_view();
    assert((h1, st1) == close_deeper(h0, st0, level));
    // A list at this level is already open: close the previous item, then
    // restart the list if its type or numbering instance changed.
    let n = stack.len();
    let restart = if n > 0 && stack[n - 1].level == level {
        push_str(html, "</li>\n");
        let last = &stack[n - 1];
        let same_id = match (&last.num_id, num_id) {
            (Some(a), Some(b)) => chars_eq(a, b),
            (None, None) => true,
            _ => false,
        };
        assert(st1.last() == last@);
        last.tag != tag || !same_id
    } else {
        false
    };
    if restart {
        let ghost st = stack.deep_view();
        let list = stack.pop().unwrap();
        assert(stack.deep_view() =~= st.drop_last());
        push_str(html, "</");
        push_str(html, list.tag.name());
        push_str(html, ">\n");
    }
    let ghost h3 = html@;
    let ghost st3 = stack.deep_view();
    // Open any missing list levels up to this item's level.
    while stack.len() <= level as usize
        invariant
            open_levels(h3, st3, level, numbering@, id) == open_levels(
                html@,
                stack.deep_view(),
                level,
                numbering@,
                id,
            ),
            id == opt_chars(*num_id),
        decreases level + 1 - stack.len(),
    {
        let ghost st = stack.deep_view();
        let idx = stack.len() as u8;
        let lvl_tag = list_tag(numbering, num_id.as_ref(), idx);
        push_str(html, "<");
        push_str(html, lvl_tag.name());
        push_str(html, ">\n");
        let id_copy = match num_id {
            Some(v) => Some(copy_chars(v)),
            None => None,
        };
        stack.push(OpenList { level: idx, tag: lvl_tag, num_id: id_copy });
        assert(stack.deep_view() =~= st.push(OpenListView { level: idx, tag: lvl_tag, num_id: id }));
    }
    push_str(html, "<li>");
    push_chars(html, content);
}

/// Append one list item, opening/closing lists so consecutive items at the
/// same level share a single `<ul>`/`<ol>` and deeper items nest inside their
/// parent.
pub fn emit_list_item(state: &mut State, level: u8, tag: ListTag, content: Vec<char>)
    ensures
        final(state)@ == with_list_item(old(state)@, level, tag, content@),
{
    emit_list_parts(
        &mut state.html,
        &mut state.list_stack,
        &state.numbering,
        &state.num_id,
        level,
        tag,
        &content,
    );
    proof {
        assert(state@ =~= with_list_item(old(state)@, level, tag, content@));
    }
}


// ---------------------------------------------------------------------------
// Start tags
// ---------------------------------------------------------------------------

/// A boolean toggle such as `<w:b/>` or `<w:i/>`: a missing value means
/// enabled; "0", "false", "off" and "none" mean explicitly disabled.
pub open spec fn run_flag_of(val: Option<Seq<char>>) -> bool {
    match val {
        None => true,
        Some(v) => !(v == "0"@ || v == "false"@ || v == "off"@ || v == "none"@),
    }
}

/// The target of a hyperlink element, from its relationship id (looked up in
/// the relationships) and its bookmark anchor: the last of each attribute
/// counts, and the relationship wins.
pub open spec fn link_targets(attrs: Seq<AttrView>, rels: Map<Seq<char>, Seq<char>>) -> (
    Option<Seq<char>>,
    Option<Seq<char>>,
)
    decreases attrs.len(),
{
    if attrs.len() == 0 {
        (None, None)
    } else {
        let (rel, anchor) = link_targets(attrs.drop_last(), rels);
        let a = attrs.last();
        if a.key == "r:id"@ || a.key == "id"@ {
            (
                if rels.contains_key(a.raw) {
                    Some(rels[a.raw])
                } else {
                    None
                },
                anchor,
            )
        } else if a.key == "w:anchor"@ || a.key == "anchor"@ {
            if a.raw.len() > 0 {
                (rel, Some("#"@ + a.raw))
            } else {
                (rel, anchor)
            }
        } else {
            (rel, anchor)
        }
    }
}

pub open spec fn hyperlink_target(attrs: Seq<AttrView>, rels: Map<Seq<char>, Seq<char>>) -> Option<
    Seq<char>,
> {
    let (rel, anchor) = link_targets(attrs, rels);
    if rel is Some {
        rel
    } else {
        anchor
    }
}

/// Whether a font attribute names a monospace family.
pub open spec fn font_attr_mono(attrs: Seq<AttrView>, key: Seq<char>) -> bool {
    match attr_lookup(attrs, key) {
        Some(name) => mono_font_name(unicode_lowercase(trim(name))),
        None => false,
    }
}

/// A monospace family on any script makes the run code.
pub open spec fn fonts_mono(attrs: Seq<AttrView>) -> bool {
    ||| font_attr_mono(attrs, "w:ascii"@)
    ||| font_attr_mono(attrs, "w:hAnsi"@)
    ||| font_attr_mono(attrs, "w:cs"@)
    ||| font_attr_mono(attrs, "w:eastAsia"@)
}

/// The character of a symbol-font glyph element, if it resolves.
pub open spec fn sym_char(attrs: Seq<AttrView>) -> Option<char> {
    let font = match attr_lookup(attrs, "w:font"@) {
        Some(f) => f,
        None => seq![],
    };
    let code = match attr_lookup(attrs, "w:char"@) {
        Some(v) => parse_unsigned(trim(v), 16, 0xffff_ffff),
        None => None,
    };
    match code {
        Some(c) => symbol_char(font, c as u32),
        None => None,
    }
}

/// The elements of `document.xml` that the converter reacts to.
#[derive(Clone, Copy, PartialEq, Eq, Structural)]
pub enum TagKind {
    Paragraph,
    ListLevel,
    ListId,
    Table,
    TableLook,
    TableRow,
    TableHeader,
    TableCell,
    ParagraphStyle,
    Hyperlink,
    Run,
    RunFonts,
    Bold,
    Italic,
    Underline,
    Strike,
    VertAlign,
    RunStyle,
    Break,
    Tab,
    Symbol,
    Text,
    Other,
}

/// The element that a tag name stands for.
pub open spec fn tag_kind(n: Seq<char>) -> TagKind {
    if n == "w:p"@ {
        TagKind::Paragraph
    } else if n == "w:ilvl"@ {
        TagKind::ListLevel
    } else if n == "w:numId"@ {
        TagKind::ListId
    } else if n == "w:tbl"@ {
        TagKind::Table
    } else if n == "w:tblLook"@ {
        TagKind::TableLook
    } else if n == "w:tr"@ {
        TagKind::TableRow
    } else if n == "w:tblHeader"@ {
        TagKind::TableHeader
    } else if n == "w:tc"@ {
        TagKind::TableCell
    } else if n == "w:pStyle"@ {
        TagKind::ParagraphStyle
    } else if n == "w:hyperlink"@ {
        TagKind::Hyperlink
    } else if n == "w:r"@ {
        TagKind::Run
    } else if n == "w:rFonts"@ {
        TagKind::RunFonts
    } else if n == "w:b"@ || n == "w:bCs"@ {
        TagKind::Bold
    } else if n == "w:i"@ || n == "w:iCs"@ {
        TagKind::Italic
    } else if n == "w:u"@ {
        TagKind::Underline
    } else if n == "w:strike"@ || n == "w:dstrike"@ {
        TagKind::Strike
    } else if n == "w:vertAlign"@ {
        TagKind::VertAlign
    } else if n == "w:rStyle"@ {
        TagKind::RunStyle
    } else if n == "w:br"@ || n == "w:cr"@ {
        TagKind::Break
    } else if n == "w:tab"@ {
        TagKind::Tab
    } else if n == "w:sym"@ {
        TagKind::Symbol
    } else if n == "w:t"@ {
        TagKind::Text
    } else {
        TagKind::Other
    }
}

/// The element that a tag name stands for.
pub fn tag_kind_of(n: &Vec<char>) -> (k: TagKind)
    ensures
        k == tag_kind(n@),
{
    if chars_eq_str(n, "w:p") {
        TagKind::Paragraph
    } else if chars_eq_str(n, "w:ilvl") {
        TagKind::ListLevel
    } else if chars_eq_str(n, "w:numId") {
        TagKind::ListId
    } else if chars_eq_str(n, "w:tbl") {
        TagKind::Table
    } else if chars_eq_str(n, "w:tblLook") {
        TagKind::TableLook
    } else if chars_eq_str(n, "w:tr") {
        TagKind::TableRow
    } else if chars_eq_str(n, "w:tblHeader") {
        TagKind::TableHeader
    } else if chars_eq_str(n, "w:tc") {
        TagKind::TableCell
    } else if chars_eq_str(n, "w:pStyle") {
        TagKind::ParagraphStyle
    } else if chars_eq_str(n, "w:hyperlink") {
        TagKind::Hyperlink
    } else if chars_eq_str(n, "w:r") {
        TagKind::Run
    } else if chars_eq_str(n, "w:rFonts") {
        TagKind::RunFonts
    } else if chars_eq_str(n, "w:b") || chars_eq_str(n, "w:bCs") {
        TagKind::Bold
    } else if chars_eq_str(n, "w:i") || chars_eq_str(n, "w:iCs") {
        TagKind::Italic
    } else if chars_eq_str(n, "w:u") {
        TagKind::Underline
    } else if chars_eq_str(n, "w:strike") || chars_eq_str(n, "w:dstrike") {
        TagKind::Strike
    } else if chars_eq_str(n, "w:vertAlign") {
        TagKind::VertAlign
    } else if chars_eq_str(n, "w:rStyle") {
        TagKind::RunStyle
    } else if chars_eq_str(n, "w:br") || chars_eq_str(n, "w:cr") {
        TagKind::Break
    } else if chars_eq_str(n, "w:tab") {
        TagKind::Tab
    } else if chars_eq_str(n, "w:sym") {
        TagKind::Symbol
    } else if chars_eq_str(n, "w:t") {
        TagKind::Text
    } else {
        TagKind::Other
    }
}

/// A new paragraph starts with no content, heading, code or list state.
pub open spec fn opened_paragraph(s: DocState) -> DocState {
    DocState {
        paragraph: seq![],
        heading: 0,
        pre: false,
        mono_only: true,
        runs: 0,
        num_id: None,
        num_level: 0,
        ..s
    }
}

/// A new table closes open lists and starts with no rows.
pub open spec fn opened_table(s: DocState) -> DocState {
    DocState {
        table: "<table>\n"@,
        row: seq![],
        cell: seq![],
        in_table: true,
        table_header: false,
        first_row_seen: false,
        tbody_open: false,
        row_header: false,
        ..flushed(s)
    }
}

/// `w:tblLook` with `w:firstRow` set marks the first row as a header.
pub open spec fn opened_table_look(s: DocState, attrs: Seq<AttrView>) -> DocState {
    let first_row = attr_lookup(attrs, "w:firstRow"@);
    if first_row == Some("1"@) || first_row == Some("true"@) {
        DocState { table_header: true, ..s }
    } else {
        s
    }
}

/// A paragraph style sets the heading level and whether the paragraph is
/// preformatted.
pub open spec fn opened_paragraph_style(s: DocState, val: Option<Seq<char>>) -> DocState {
    match val {
        Some(style) => DocState {
            heading: heading_of(unicode_lowercase(trim(style))),
            pre: pre_style_name(normalized_style(style)),
            ..s
        },
        None => s,
    }
}

/// A new run starts with no text and no formatting.
pub open spec fn opened_run(s: DocState) -> DocState {
    DocState {
        run: seq![],
        bold: false,
        italic: false,
        underline: false,
        strike: false,
        subscript: false,
        superscript: false,
        mono: false,
        ..s
    }
}

/// Vertical alignment makes the run subscript, superscript, or neither:
/// the (subscript, superscript) flags for a `w:val`.
pub open spec fn vert_flags(val: Option<Seq<char>>) -> (bool, bool) {
    if val == Some("subscript"@) {
        (true, false)
    } else if val == Some("superscript"@) {
        (false, true)
    } else {
        (false, false)
    }
}

/// Word's built-in `Strong` and `Emphasis` character styles make a run bold
/// or italic, and code character styles make it code: the (bold, italic,
/// code) flags that a `w:rStyle` value sets.
pub open spec fn run_style_flags(val: Option<Seq<char>>) -> (bool, bool, bool) {
    match val {
        Some(style) => {
            let lower = unicode_lowercase(style);
            (
                lower == "strong"@,
                lower != "strong"@ && lower == "emphasis"@,
                mono_style_name(normalized_style(style)),
            )
        },
        None => (false, false, false),
    }
}

/// The run formatting after a vertical alignment.
pub open spec fn with_vert_align(s: DocState, flags: (bool, bool)) -> DocState {
    DocState { subscript: flags.0, superscript: flags.1, ..s }
}

/// The run formatting after a character style: flags it sets are switched
/// on, the others stay.
pub open spec fn with_run_style(s: DocState, flags: (bool, bool, bool)) -> DocState {
    let s1 = if flags.0 {
        with_bold(s, true)
    } else {
        s
    };
    let s2 = if flags.1 {
        with_italic(s1, true)
    } else {
        s1
    };
    if flags.2 {
        with_mono(s2, true)
    } else {
        s2
    }
}

pub open spec fn with_num_level(s: DocState, level: u8) -> DocState {
    DocState { num_level: level, ..s }
}

pub open spec fn with_num_id(s: DocState, id: Option<Seq<char>>) -> DocState {
    DocState { num_id: id, ..s }
}

/// A new row is a header row if the table has a header and this is its
/// first row.
pub open spec fn opened_row(s: DocState) -> DocState {
    DocState { row: seq![], row_header: s.table_header && !s.first_row_seen, ..s }
}

pub open spec fn with_row_header(s: DocState) -> DocState {
    DocState { row_header: true, ..s }
}

pub open spec fn opened_cell(s: DocState) -> DocState {
    DocState { cell: seq![], ..s }
}

pub open spec fn opened_hyperlink(s: DocState, href: Option<Seq<char>>) -> DocState {
    DocState { link_text: seq![], href, ..s }
}

pub open spec fn with_mono(s: DocState, mono: bool) -> DocState {
    DocState { mono: s.mono || mono, ..s }
}

pub open spec fn with_bold(s: DocState, on: bool) -> DocState {
    DocState { bold: on, ..s }
}

pub open spec fn with_italic(s: DocState, on: bool) -> DocState {
    DocState { italic: on, ..s }
}

pub open spec fn with_underline(s: DocState, on: bool) -> DocState {
    DocState { underline: on, ..s }
}

pub open spec fn with_strike(s: DocState, on: bool) -> DocState {
    DocState { strike: on, ..s }
}

pub open spec fn with_in_text(s: DocState, on: bool) -> DocState {
    DocState { in_text: on, ..s }
}

/// Text appended to the current run.
pub open spec fn with_run_text(s: DocState, text: Seq<char>) -> DocState {
    DocState { run: s.run + text, ..s }
}

/// Inside code a break stays a newline and a tab keeps its width; elsewhere
/// a break is `<br>` and a tab a space.
pub open spec fn break_text(code: bool) -> Seq<char> {
    if code {
        "\n"@
    } else {
        "<br>"@
    }
}

pub open spec fn tab_text(code: bool) -> Seq<char> {
    if code {
        "\t"@
    } else {
        " "@
    }
}

/// A symbol-font glyph, escaped like any other text, or nothing if it does
/// not resolve.
pub open spec fn symbol_text(attrs: Seq<AttrView>) -> Seq<char> {
    match sym_char(attrs) {
        Some(c) => escaped(seq![c], false),
        None => seq![],
    }
}

/// The state after a start tag.
pub open spec fn open_tag(s: DocState, t: TagView, rels: Map<Seq<char>, Seq<char>>) -> DocState {
    let val = attr_lookup(t.attrs, "w:val"@);
    let code = s.pre || s.mono;
    match tag_kind(t.name) {
        TagKind::Paragraph => opened_paragraph(s),
        TagKind::ListLevel => with_num_level(s, byte_or_zero(val)),
        TagKind::ListId => with_num_id(s, val),
        TagKind::Table => opened_table(s),
        TagKind::TableLook => opened_table_look(s, t.attrs),
        TagKind::TableRow => opened_row(s),
        TagKind::TableHeader => with_row_header(s),
        TagKind::TableCell => opened_cell(s),
        TagKind::ParagraphStyle => opened_paragraph_style(s, val),
        TagKind::Hyperlink => opened_hyperlink(s, hyperlink_target(t.attrs, rels)),
        TagKind::Run => opened_run(s),
        TagKind::RunFonts => with_mono(s, fonts_mono(t.attrs)),
        TagKind::Bold => with_bold(s, run_flag_of(val)),
        TagKind::Italic => with_italic(s, run_flag_of(val)),
        TagKind::Underline => with_underline(s, run_flag_of(val)),
        TagKind::Strike => with_strike(s, run_flag_of(val)),
        TagKind::VertAlign => with_vert_align(s, vert_flags(val)),
        TagKind::RunStyle => with_run_style(s, run_style_flags(val)),
        TagKind::Break => with_run_text(s, break_text(code)),
        TagKind::Tab => with_run_text(s, tab_text(code)),
        TagKind::Symbol => with_run_text(s, symbol_text(t.attrs)),
        TagKind::Text => with_in_text(s, true),
        TagKind::Other => s,
    }
}

/// A boolean toggle such as `<w:b/>` or `<w:i/>`: a missing or true value
/// means enabled; "0", "false", "off" and "none" mean explicitly disabled.
pub fn run_flag(t: &XmlTag) -> (r: bool)
    ensures
        r == run_flag_of(attr_lookup(t@.attrs, "w:val"@)),
{
    match attr_value(t, "w:val") {
        None => true,
        Some(v) => !(chars_eq_str(&v, "0") || chars_eq_str(&v, "false") || chars_eq_str(
            &v,
            "off",
        ) || chars_eq_str(&v, "none")),
    }
}

fn hyperlink_exec(t: &XmlTag, rels: &Relationships) -> (r: Option<Vec<char>>)
    ensures
        opt_chars(r) == hyperlink_target(t@.attrs, rels@),
{
    let mut rel_href: Option<Vec<char>> = None;
    let mut anchor_href: Option<Vec<char>> = None;
    let attrs = &t.attrs;
    let mut i: usize = 0;
    while i < attrs.len()
        invariant
            i <= attrs.len(),
            attrs.deep_view() == t@.attrs,
            (opt_chars(rel_href), opt_chars(anchor_href)) == link_targets(
                attrs.deep_view().take(i as int),
                rels@,
            ),
        decreases attrs.len() - i,
    {
        assert(attrs.deep_view().take(i + 1).drop_last() == attrs.deep_view().take(i as int));
        assert(attrs.deep_view().take(i + 1).last() == attrs@[i as int]@);
        let key = &attrs[i].key;
        if chars_eq_str(key, "r:id") || chars_eq_str(key, "id") {
            rel_href = rels.get(&attrs[i].raw);
        } else if chars_eq_str(key, "w:anchor") || chars_eq_str(key, "anchor") {
            // Internal links (TOC entries, cross-references) carry a
            // bookmark name instead of a relationship id.
            if attrs[i].raw.len() > 0 {
                let mut a: Vec<char> = Vec::new();
                a.push('#');
                push_chars(&mut a, &attrs[i].raw);
                assert(a@ =~= "#"@ + attrs@[i as int].raw@) by {
                    reveal_strlit("#");
                }
                anchor_href = Some(a);
            }
        }
        i += 1;
    }
    assert(attrs.deep_view().take(attrs.len() as int) == attrs.deep_view());
    match rel_href {
        Some(h) => Some(h),
        None => anchor_href,
    }
}

fn font_attr_mono_exec(t: &XmlTag, key: &str) -> (r: bool)
    ensures
        r == font_attr_mono(t@.attrs, key@),
{
    match attr_value(t, key) {
        Some(name) => is_mono_font(string_of(&name).as_str()),
        None => false,
    }
}

fn sym_char_exec(t: &XmlTag) -> (r: Option<char>)
    ensures
        r == sym_char(t@.attrs),
{
    let font = match attr_value(t, "w:font") {
        Some(f) => f,
        None => Vec::new(),
    };
    let code = match attr_value(t, "w:char") {
        Some(v) => parse_hex_u32(&trim_chars(&v)),
        None => None,
    };
    match code {
        Some(c) => to_char(string_of(&font).as_str(), c),
        None => None,
    }
}

fn open_paragraph(state: &mut State)
    ensures
        final(state)@ == opened_paragraph(old(state)@),
{
    state.paragraph.clear();
    state.heading = 0;
    state.pre = false;
    state.mono_only = true;
    state.runs = 0;
    state.num_id = None;
    state.num_level = 0;
    proof {
        assert(state@ =~= opened_paragraph(old(state)@));
    }
}

fn open_table(state: &mut State)
    ensures
        final(state)@ == opened_table(old(state)@),
{
    flush_lists(state);
    let ghost f = state@;
    state.table.clear();
    push_str(&mut state.table, "<table>\n");
    state.row.clear();
    state.cell.clear();
    state.in_table = true;
    state.table_header = false;
    state.first_row_seen = false;
    state.tbody_open = false;
    state.row_header = false;
    proof {
        assert(state@ =~= opened_table(old(state)@));
    }
}

fn first_row_header(t: &XmlTag) -> (r: bool)
    ensures
        r == (attr_lookup(t@.attrs, "w:firstRow"@) == Some("1"@) || attr_lookup(
            t@.attrs,
            "w:firstRow"@,
        ) == Some("true"@)),
{
    match attr_value(t, "w:firstRow") {
        Some(v) => chars_eq_str(&v, "1") || chars_eq_str(&v, "true"),
        None => false,
    }
}

fn open_table_look(t: &XmlTag, state: &mut State)
    ensures
        final(state)@ == opened_table_look(old(state)@, t@.attrs),
{
    if first_row_header(t) {
        state.table_header = true;
    }
    proof {
        assert(state@ =~= opened_table_look(old(state)@, t@.attrs));
    }
}

fn open_paragraph_style(t: &XmlTag, state: &mut State)
    ensures
        final(state)@ == opened_paragraph_style(old(state)@, attr_lookup(t@.attrs, "w:val"@)),
{
    if let Some(style) = attr_value(t, "w:val") {
        let text = string_of(&style);
        state.heading = heading_level(text.as_str());
        state.pre = is_pre_style(text.as_str());
    }
    proof {
        assert(state@ =~= opened_paragraph_style(old(state)@, attr_lookup(t@.attrs, "w:val"@)));
    }
}

fn open_run(state: &mut State)
    ensures
        final(state)@ == opened_run(old(state)@),
{
    state.run.clear();
    state.bold = false;
    state.italic = false;
    state.underline = false;
    state.strike = false;
    state.subscript = false;
    state.superscript = false;
    state.mono = false;
    proof {
        assert(state@ =~= opened_run(old(state)@));
    }
}

fn vert_flags_exec(t: &XmlTag) -> (r: (bool, bool))
    ensures
        r == vert_flags(attr_lookup(t@.attrs, "w:val"@)),
{
    match attr_value(t, "w:val") {
        Some(v) => if chars_eq_str(&v, "subscript") {
            (true, false)
        } else if chars_eq_str(&v, "superscript") {
            (false, true)
        } else {
            (false, false)
        },
        None => (false, false),
    }
}

fn run_style_flags_exec(t: &XmlTag) -> (r: (bool, bool, bool))
    ensures
        r == run_style_flags(attr_lookup(t@.attrs, "w:val"@)),
{
    match attr_value(t, "w:val") {
        Some(style) => {
            let lower = to_lowercase(&style);
            let strong = chars_eq_str(&lower, "strong");
            let emphasis = !strong && chars_eq_str(&lower, "emphasis");
            (strong, emphasis, is_mono_style(string_of(&style).as_str()))
        },
        None => (false, false, false),
    }
}

fn fonts_mono_exec(t: &XmlTag) -> (r: bool)
    ensures
        r == fonts_mono(t@.attrs),
{
    font_attr_mono_exec(t, "w:ascii") || font_attr_mono_exec(t, "w:hAnsi") || font_attr_mono_exec(
        t,
        "w:cs",
    ) || font_attr_mono_exec(t, "w:eastAsia")
}

fn list_level_exec(t: &XmlTag) -> (r: u8)
    ensures
        r == byte_or_zero(attr_lookup(t@.attrs, "w:val"@)),
{
    match attr_value(t, "w:val") {
        Some(v) => match parse_u8(&v) {
            Some(l) => l,
            None => 0,
        },
        None => 0,
    }
}

fn list_id_exec(t: &XmlTag) -> (r: Option<Vec<char>>)
    ensures
        opt_chars(r) == attr_lookup(t@.attrs, "w:val"@),
{
    attr_value(t, "w:val")
}

fn set_vert_align(state: &mut State, flags: (bool, bool))
    ensures
        final(state)@ == with_vert_align(old(state)@, flags),
{
    state.subscript = flags.0;
    state.superscript = flags.1;
    proof {
        assert(state@ =~= with_vert_align(old(state)@, flags));
    }
}

fn set_run_style(state: &mut State, flags: (bool, bool, bool))
    ensures
        final(state)@ == with_run_style(old(state)@, flags),
{
    if flags.0 {
        set_bold(state, true);
    }
    if flags.1 {
        set_italic(state, true);
    }
    if flags.2 {
        set_mono(state, true);
    }
}

fn set_num_level(state: &mut State, level: u8)
    ensures
        final(state)@ == with_num_level(old(state)@, level),
{
    state.num_level = level;
    proof {
        assert(state@ =~= with_num_level(old(state)@, level));
    }
}

fn set_num_id(state: &mut State, id: Option<Vec<char>>)
    ensures
        final(state)@ == with_num_id(old(state)@, opt_chars(id)),
{
    state.num_id = id;
    proof {
        assert(state@ =~= with_num_id(old(state)@, opt_chars(id)));
    }
}

fn open_row(state: &mut State)
    ensures
        final(state)@ == opened_row(old(state)@),
{
    state.row.clear();
    state.row_header = state.table_header && !state.first_row_seen;
    proof {
        assert(state@ =~= opened_row(old(state)@));
    }
}

fn set_row_header(state: &mut State)
    ensures
        final(state)@ == with_row_header(old(state)@),
{
    state.row_header = true;
    proof {
        assert(state@ =~= with_row_header(old(state)@));
    }
}

fn open_cell(state: &mut State)
    ensures
        final(state)@ == opened_cell(old(state)@),
{
    state.cell.clear();
    proof {
        assert(state@ =~= opened_cell(old(state)@));
    }
}

fn open_hyperlink(state: &mut State, href: Option<Vec<char>>)
    ensures
        final(state)@ == opened_hyperlink(old(state)@, opt_chars(href)),
{
    state.link_text.clear();
    state.href = href;
    proof {
        assert(state@ =~= opened_hyperlink(old(state)@, opt_chars(href)));
    }
}

fn set_mono(state: &mut State, mono: bool)
    ensures
        final(state)@ == with_mono(old(state)@, mono),
{
    state.mono = state.mono || mono;
    proof {
        assert(state@ =~= with_mono(old(state)@, mono));
    }
}

fn set_bold(state: &mut State, on: bool)
    ensures
        final(state)@ == with_bold(old(state)@, on),
{
    state.bold = on;
    proof {
        assert(state@ =~= with_bold(old(state)@, on));
    }
}

fn set_italic(state: &mut State, on: bool)
    ensures
        final(state)@ == with_italic(old(state)@, on),
{
    state.italic = on;
    proof {
        assert(state@ =~= with_italic(old(state)@, on));
    }
}

fn set_underline(state: &mut State, on: bool)
    ensures
        final(state)@ == with_underline(old(state)@, on),
{
    state.underline = on;
    proof {
        assert(state@ =~= with_underline(old(state)@, on));
    }
}

fn set_strike(state: &mut State, on: bool)
    ensures
        final(state)@ == with_strike(old(state)@, on),
{
    state.strike = on;
    proof {
        assert(state@ =~= with_strike(old(state)@, on));
    }
}

fn set_in_text(state: &mut State, on: bool)
    ensures
        final(state)@ == with_in_text(old(state)@, on),
{
    state.in_text = on;
    proof {
        assert(state@ =~= with_in_text(old(state)@, on));
    }
}

fn append_run_text(state: &mut State, text: &str)
    ensures
        final(state)@ == with_run_text(old(state)@, text@),
{
    push_str(&mut state.run, text);
    proof {
        assert(state@ =~= with_run_text(old(state)@, text@));
    }
}

fn append_symbol(t: &XmlTag, state: &mut State)
    ensures
        final(state)@ == with_run_text(old(state)@, symbol_text(t@.attrs)),
{
    let mut e: Vec<char> = Vec::new();
    if let Some(c) = sym_char_exec(t) {
        let mut one: Vec<char> = Vec::new();
        one.push(c);
        assert(one@ =~= seq![c]);
        e = escape_chars(&one, false);
    }
    push_chars(&mut state.run, &e);
    proof {
        assert(state@ =~= with_run_text(old(state)@, symbol_text(t@.attrs)));
    }
}

/// The state after a start tag.
pub fn open(t: &XmlTag, state: &mut State, rels: &Relationships)
    ensures
        final(state)@ == open_tag(old(state)@, t@, rels@),
{
    let code = state.pre || state.mono;
    match tag_kind_of(&t.name) {
        TagKind::Paragraph => open_paragraph(state),
        TagKind::ListLevel => set_num_level(state, list_level_exec(t)),
        TagKind::ListId => set_num_id(state, list_id_exec(t)),
        TagKind::Table => open_table(state),
        TagKind::TableLook => open_table_look(t, state),
        TagKind::TableRow => open_row(state),
        TagKind::TableHeader => set_row_header(state),
        TagKind::TableCell => open_cell(state),
        TagKind::ParagraphStyle => open_paragraph_style(t, state),
        TagKind::Hyperlink => open_hyperlink(state, hyperlink_exec(t, rels)),
        TagKind::Run => open_run(state),
        // A monospace family on any script makes the run code.
        TagKind::RunFonts => set_mono(state, fonts_mono_exec(t)),
        TagKind::Bold => set_bold(state, run_flag(t)),
        TagKind::Italic => set_italic(state, run_flag(t)),
        TagKind::Underline => set_underline(state, run_flag(t)),
        TagKind::Strike => set_strike(state, run_flag(t)),
        TagKind::VertAlign => set_vert_align(state, vert_flags_exec(t)),
        // Word's built-in character styles for bold/italic text.
        TagKind::RunStyle => set_run_style(state, run_style_flags_exec(t)),
        // Inside code a break stays a newline and a tab keeps its width;
        // both survive verbatim in the emitted <pre>.
        TagKind::Break => {
            if code {
                append_run_text(state, "\n");
            } else {
                append_run_text(state, "<br>");
            }
        },
        TagKind::Tab => {
            if code {
                append_run_text(state, "\t");
            } else {
                append_run_text(state, " ");
            }
        },
        // A symbol-font glyph such as a Wingdings smiley. Word spells it as a
        // font index rather than a character, so map it to a character before the run
        // is flushed; otherwise the whole element is lost. It goes through
        // escaping like any other text: the Symbol table maps some indices to
        // &, < and >.
        TagKind::Symbol => append_symbol(t, state),
        TagKind::Text => set_in_text(state, true),
        TagKind::Other => {},
    }
}


// ---------------------------------------------------------------------------
// End tags
// ---------------------------------------------------------------------------

/// `x` inside the element `tag`: `<tag>x</tag>`.
pub open spec fn element(tag: Seq<char>, x: Seq<char>) -> Seq<char> {
    "<"@ + tag + ">"@ + x + "</"@ + tag + ">"@
}

/// A run's text with its formatting, nested in a fixed order so identical
/// formatting in adjacent runs can be merged later.
pub open spec fn formatted_run(
    text: Seq<char>,
    sub: bool,
    sup: bool,
    em: bool,
    strong: bool,
    u: bool,
    strike: bool,
    code: bool,
) -> Seq<char> {
    let t1 = if sub {
        element("sub"@, text)
    } else {
        text
    };
    let t2 = if sup {
        element("sup"@, t1)
    } else {
        t1
    };
    let t3 = if em {
        element("em"@, t2)
    } else {
        t2
    };
    let t4 = if strong {
        element("strong"@, t3)
    } else {
        t3
    };
    let t5 = if u {
        element("u"@, t4)
    } else {
        t4
    };
    let t6 = if strike {
        element("s"@, t5)
    } else {
        t5
    };
    if code {
        element("code"@, t6)
    } else {
        t6
    }
}

/// A run's text with the formatting of state `s`.
pub open spec fn run_markup(s: DocState) -> Seq<char> {
    formatted_run(
        s.run,
        s.subscript,
        s.superscript,
        s.italic,
        s.bold,
        s.underline,
        s.strike,
        s.mono && !s.pre,
    )
}

/// `x`, with `y` appended if `cond` holds.
pub open spec fn append_if(x: Seq<char>, y: Seq<char>, cond: bool) -> Seq<char> {
    if cond {
        x + y
    } else {
        x
    }
}

/// The state after a run ends: its text, formatted, joins the hyperlink or
/// the paragraph, and a run that is neither code nor blank means the
/// paragraph is not all code. (A preformatted paragraph wraps the block as a
/// whole, so only inline code gets its own `<code>` tag here.)
pub open spec fn closed_run(s: DocState) -> DocState {
    let nonempty = s.run.len() > 0;
    without_run(
        with_run_counted(
            with_run_appended(s, run_markup(s), nonempty, s.href is Some),
            nonempty,
            is_blank(s.run),
        ),
    )
}

/// The formatted run joins the hyperlink if one is open, else the paragraph.
pub open spec fn with_run_appended(s: DocState, out: Seq<char>, nonempty: bool, linked: bool) -> DocState {
    DocState {
        link_text: append_if(s.link_text, out, nonempty && linked),
        paragraph: append_if(s.paragraph, out, nonempty && !linked),
        ..s
    }
}

/// A non-empty run is counted, and one that is neither code nor blank means
/// the paragraph is not all code.
pub open spec fn with_run_counted(s: DocState, nonempty: bool, blank: bool) -> DocState {
    with_mono_only(
        with_runs(
            s,
            if nonempty {
                s.runs + 1
            } else {
                s.runs
            },
        ),
        if nonempty && !s.mono && !blank {
            false
        } else {
            s.mono_only
        },
    )
}

pub open spec fn with_runs(s: DocState, runs: nat) -> DocState {
    DocState { runs, ..s }
}

pub open spec fn with_mono_only(s: DocState, mono_only: bool) -> DocState {
    DocState { mono_only, ..s }
}

pub open spec fn without_run(s: DocState) -> DocState {
    DocState { run: seq![], ..s }
}

/// The markup of a hyperlink.
pub open spec fn link_markup(href: Option<Seq<char>>, text: Seq<char>) -> Seq<char> {
    match href {
        Some(h) => "<a href=\""@ + escaped_attr(h) + "\">"@ + text + "</a>"@,
        None => text,
    }
}

/// The state after a hyperlink ends: its text joins the paragraph, as a link
/// if it has a target.
pub open spec fn closed_hyperlink(s: DocState) -> DocState {
    DocState {
        link_text: seq![],
        href: None,
        paragraph: s.paragraph + link_markup(s.href, s.link_text),
        ..s
    }
}

/// The state after a table cell ends: it joins the row as a header or data
/// cell.
pub open spec fn closed_cell(s: DocState) -> DocState {
    let tag = if s.row_header {
        "th"@
    } else {
        "td"@
    };
    DocState { row: s.row + element(tag, s.cell) + "\n"@, cell: seq![], ..s }
}

/// The state after a table row ends: the first row of a table with a header
/// becomes its `<thead>`; other rows go in the `<tbody>`, opened by the
/// first of them.
pub open spec fn closed_row(s: DocState) -> DocState {
    let row = "<tr>\n"@ + s.row + "</tr>\n"@;
    if s.row_header && !s.first_row_seen {
        DocState {
            table: s.table + "<thead>\n"@ + row + "</thead>\n"@,
            row: seq![],
            first_row_seen: true,
            ..s
        }
    } else {
        DocState {
            table: s.table + (if !s.tbody_open {
                "<tbody>\n"@
            } else {
                seq![]
            }) + row,
            tbody_open: true,
            row: seq![],
            first_row_seen: true,
            ..s
        }
    }
}

/// The state after a table ends: it is flushed to the output.
pub open spec fn closed_table(s: DocState) -> DocState {
    let table = append_if(s.table, "</tbody>\n"@, s.tbody_open) + "</table>\n\n"@;
    DocState {
        html: s.html + table,
        table: seq![],
        in_table: false,
        tbody_open: false,
        row_header: false,
        ..s
    }
}

/// Whether a paragraph outside a table is a code paragraph: it has a
/// preformatted style, or all of its (at least one) runs are code and it is
/// neither a heading nor a list item.
pub open spec fn is_code_paragraph(s: DocState) -> bool {
    s.pre || (s.mono_only && s.runs > 0 && s.heading == 0 && s.num_id is None)
}

/// The content of a code paragraph: runs of a paragraph that is entirely
/// monospace were wrapped in `<code>` one by one, so those tags are removed
/// before the block as a whole is wrapped; an empty block keeps a newline.
pub open spec fn code_block_content(content: Seq<char>, pre: bool) -> Seq<char> {
    let c = if pre {
        content
    } else {
        replace_all(replace_all(content, "<code>"@, seq![]), "</code>"@, seq![])
    };
    if trim(c).len() == 0 {
        "\n"@
    } else {
        c
    }
}

/// The block element of a paragraph: `h1`..`h6` for headings, `p` otherwise.
pub open spec fn block_tag(heading: u8) -> Seq<char> {
    if heading >= 1 {
        seq!['h', ('0' as u8 + if heading < 6 {
            heading
        } else {
            6u8
        }) as char]
    } else {
        "p"@
    }
}

/// The markup of a code paragraph.
pub open spec fn code_block_markup(content: Seq<char>, pre: bool) -> Seq<char> {
    "<pre><code>"@ + code_block_content(content, pre) + "</code></pre>\n\n"@
}

/// The markup of a heading or ordinary paragraph.
pub open spec fn block_markup(heading: u8, content: Seq<char>) -> Seq<char> {
    element(block_tag(heading), content) + "\n\n"@
}

/// The cell after a paragraph of it ends: its content joins the cell,
/// separated by a space from earlier paragraphs.
pub open spec fn cell_joined(cell: Seq<char>, content: Seq<char>) -> Seq<char> {
    if content.len() > 0 {
        cell + (if cell.len() > 0 {
            " "@
        } else {
            seq![]
        }) + content
    } else {
        cell
    }
}

pub open spec fn with_cell_content(s: DocState, content: Seq<char>) -> DocState {
    DocState { cell: cell_joined(s.cell, content), ..s }
}

pub open spec fn with_html(s: DocState, markup: Seq<char>) -> DocState {
    DocState { html: s.html + markup, ..s }
}

pub open spec fn without_paragraph(s: DocState) -> DocState {
    DocState { paragraph: seq![], ..s }
}

pub open spec fn without_numbering(s: DocState) -> DocState {
    DocState { num_id: None, num_level: 0, ..s }
}

/// The state after a paragraph ends. In a table its content joins the cell;
/// a code paragraph becomes a `<pre><code>` block; a numbered paragraph
/// becomes a list item; any other non-empty paragraph a heading or `<p>`,
/// followed by a blank line. Open lists close before anything but a list
/// item or cell content. Empty paragraphs are skipped, and the numbering
/// read for the paragraph is consumed.
pub open spec fn closed_paragraph(s: DocState) -> DocState {
    let content = s.paragraph;
    let s0 = without_paragraph(s);
    let s1 = if s.in_table {
        with_cell_content(s0, content)
    } else if is_code_paragraph(s) {
        with_html(flushed(s0), code_block_markup(content, s.pre))
    } else if s.num_id is Some && content.len() > 0 {
        with_list_item(s0, s.num_level, list_tag_of(s.numbering, s.num_id, s.num_level), content)
    } else if content.len() > 0 {
        with_html(flushed(s0), block_markup(s.heading, content))
    } else {
        flushed(s0)
    };
    without_numbering(s1)
}

/// The state after an end tag.
pub open spec fn close_tag(s: DocState, name: Seq<char>) -> DocState {
    match tag_kind(name) {
        TagKind::Text => with_in_text(s, false),
        TagKind::Run => closed_run(s),
        TagKind::Hyperlink => closed_hyperlink(s),
        TagKind::TableCell => closed_cell(s),
        TagKind::TableRow => closed_row(s),
        TagKind::Table => closed_table(s),
        TagKind::Paragraph => closed_paragraph(s),
        _ => s,
    }
}

fn push_element(out: &mut Vec<char>, tag: &str, x: &Vec<char>)
    ensures
        final(out)@ == old(out)@ + element(tag@, x@),
{
    let ghost o = out@;
    push_str(out, "<");
    push_str(out, tag);
    push_str(out, ">");
    push_chars(out, x);
    push_str(out, "</");
    push_str(out, tag);
    push_str(out, ">");
    assert(out@ =~= o + element(tag@, x@));
}

fn wrap_element(tag: &str, x: Vec<char>) -> (r: Vec<char>)
    ensures
        r@ == element(tag@, x@),
{
    let mut out: Vec<char> = Vec::new();
    push_element(&mut out, tag, &x);
    assert(out@ =~= element(tag@, x@));
    out
}

fn format_run(
    text: Vec<char>,
    sub: bool,
    sup: bool,
    em: bool,
    strong: bool,
    u: bool,
    strike: bool,
    code: bool,
) -> (r: Vec<char>)
    ensures
        r@ == formatted_run(text@, sub, sup, em, strong, u, strike, code),
{
    let mut out = text;
    if sub {
        out = wrap_element("sub", out);
    }
    if sup {
        out = wrap_element("sup", out);
    }
    if em {
        out = wrap_element("em", out);
    }
    if strong {
        out = wrap_element("strong", out);
    }
    if u {
        out = wrap_element("u", out);
    }
    if strike {
        out = wrap_element("s", out);
    }
    // A preformatted paragraph wraps the block as a whole, so only inline
    // code gets its own <code> tag here.
    if code {
        out = wrap_element("code", out);
    }
    out
}

fn push_chars_if(v: &mut Vec<char>, w: &Vec<char>, cond: bool)
    ensures
        final(v)@ == append_if(old(v)@, w@, cond),
{
    if cond {
        push_chars(v, w);
    }
}

fn push_str_if(v: &mut Vec<char>, w: &str, cond: bool)
    ensures
        final(v)@ == append_if(old(v)@, w@, cond),
{
    if cond {
        push_str(v, w);
    }
}

fn run_markup_exec(state: &State) -> (r: Vec<char>)
    ensures
        r@ == run_markup(state@),
{
    format_run(
        copy_chars(&state.run),
        state.subscript,
        state.superscript,
        state.italic,
        state.bold,
        state.underline,
        state.strike,
        state.mono && !state.pre,
    )
}

fn append_run(state: &mut State, out: &Vec<char>, nonempty: bool, linked: bool)
    ensures
        final(state)@ == with_run_appended(old(state)@, out@, nonempty, linked),
{
    push_chars_if(&mut state.link_text, out, nonempty && linked);
    push_chars_if(&mut state.paragraph, out, nonempty && !linked);
    proof {
        assert(state@ =~= with_run_appended(old(state)@, out@, nonempty, linked));
    }
}

fn set_runs(state: &mut State, runs: usize)
    ensures
        final(state)@ == with_runs(old(state)@, runs as nat),
{
    state.runs = runs;
    proof {
        assert(state@ =~= with_runs(old(state)@, runs as nat));
    }
}

fn set_mono_only(state: &mut State, mono_only: bool)
    ensures
        final(state)@ == with_mono_only(old(state)@, mono_only),
{
    state.mono_only = mono_only;
    proof {
        assert(state@ =~= with_mono_only(old(state)@, mono_only));
    }
}

fn count_run(state: &mut State, nonempty: bool, blank: bool)
    requires
        old(state).runs < usize::MAX,
    ensures
        final(state)@ == with_run_counted(old(state)@, nonempty, blank),
{
    let runs = if nonempty {
        state.runs + 1
    } else {
        state.runs
    };
    let mono_only = if nonempty && !state.mono && !blank {
        false
    } else {
        state.mono_only
    };
    set_runs(state, runs);
    set_mono_only(state, mono_only);
}

fn clear_run(state: &mut State)
    ensures
        final(state)@ == without_run(old(state)@),
{
    state.run.clear();
    proof {
        assert(state@ =~= without_run(old(state)@));
    }
}

fn close_run(state: &mut State)
    requires
        old(state).runs < usize::MAX,
    ensures
        final(state)@ == closed_run(old(state)@),
{
    let out = run_markup_exec(state);
    let nonempty = state.run.len() > 0;
    // Whitespace-only runs (Word often splits those out) must not stop a
    // code paragraph from being recognised.
    let blank = crate::text::trims_to_empty(&state.run);
    let linked = state.href.is_some();
    append_run(state, &out, nonempty, linked);
    count_run(state, nonempty, blank);
    clear_run(state);
}

fn link_markup_exec(href: &Option<Vec<char>>, text: &Vec<char>) -> (r: Vec<char>)
    ensures
        r@ == link_markup(opt_chars(*href), text@),
{
    match href {
        Some(h) => {
            let mut out: Vec<char> = Vec::new();
            push_str(&mut out, "<a href=\"");
            let attr = crate::escape::escape_attr(string_of(h).as_str());
            push_chars(&mut out, &crate::text::chars_of(attr.as_str()));
            push_str(&mut out, "\">");
            push_chars(&mut out, text);
            push_str(&mut out, "</a>");
            assert(out@ =~= link_markup(opt_chars(*href), text@));
            out
        },
        None => copy_chars(text),
    }
}

fn close_hyperlink(state: &mut State)
    ensures
        final(state)@ == closed_hyperlink(old(state)@),
{
    let markup = link_markup_exec(&state.href, &state.link_text);
    push_chars(&mut state.paragraph, &markup);
    state.link_text.clear();
    state.href = None;
    proof {
        assert(state@ =~= closed_hyperlink(old(state)@));
    }
}

fn close_cell(state: &mut State)
    ensures
        final(state)@ == closed_cell(old(state)@),
{
    let tag = if state.row_header {
        "th"
    } else {
        "td"
    };
    push_element(&mut state.row, tag, &state.cell);
    push_str(&mut state.row, "\n");
    state.cell.clear();
    proof {
        assert(state@ =~= closed_cell(old(state)@));
    }
}

fn close_row(state: &mut State)
    ensures
        final(state)@ == closed_row(old(state)@),
{
    let mut row: Vec<char> = Vec::new();
    push_str(&mut row, "<tr>\n");
    push_chars(&mut row, &state.row);
    push_str(&mut row, "</tr>\n");
    if state.row_header && !state.first_row_seen {
        push_str(&mut state.table, "<thead>\n");
        push_chars(&mut state.table, &row);
        push_str(&mut state.table, "</thead>\n");
    } else {
        if !state.tbody_open {
            push_str(&mut state.table, "<tbody>\n");
            state.tbody_open = true;
        }
        push_chars(&mut state.table, &row);
    }
    state.row.clear();
    state.first_row_seen = true;
    proof {
        assert(state@ =~= closed_row(old(state)@));
    }
}

fn close_table(state: &mut State)
    ensures
        final(state)@ == closed_table(old(state)@),
{
    let tbody_open = state.tbody_open;
    push_str_if(&mut state.table, "</tbody>\n", tbody_open);
    push_str(&mut state.table, "</table>\n\n");
    push_chars(&mut state.html, &state.table);
    state.table.clear();
    state.in_table = false;
    state.tbody_open = false;
    state.row_header = false;
    proof {
        assert(state@ =~= closed_table(old(state)@));
    }
}

fn code_block_content_exec(content: &Vec<char>, pre: bool) -> (r: Vec<char>)
    ensures
        r@ == code_block_content(content@, pre),
{
    let c = if pre {
        copy_chars(content)
    } else {
        proof {
            reveal_strlit("<code>");
            reveal_strlit("</code>");
        }
        let once = replace_str(content, "<code>", "");
        replace_str(&once, "</code>", "")
    };
    proof {
        reveal_strlit("");
        assert(""@ =~= Seq::<char>::empty());
    }
    if crate::text::trims_to_empty(&c) {
        let mut nl: Vec<char> = Vec::new();
        push_str(&mut nl, "\n");
        nl
    } else {
        c
    }
}

fn block_tag_exec(heading: u8) -> (r: Vec<char>)
    ensures
        r@ == block_tag(heading),
{
    let mut r: Vec<char> = Vec::new();
    if heading >= 1 {
        let level = if heading < 6 {
            heading
        } else {
            6u8
        };
        r.push('h');
        r.push((48u8 + level) as char);
        assert(r@ =~= block_tag(heading));
    } else {
        push_str(&mut r, "p");
    }
    r
}

fn take_paragraph(state: &mut State) -> (content: Vec<char>)
    ensures
        content@ == old(state)@.paragraph,
        final(state)@ == without_paragraph(old(state)@),
{
    let mut content: Vec<char> = Vec::new();
    std::mem::swap(&mut content, &mut state.paragraph);
    proof {
        assert(state@ =~= without_paragraph(old(state)@));
    }
    content
}

fn cell_joined_exec(cell: &Vec<char>, content: &Vec<char>) -> (r: Vec<char>)
    ensures
        r@ == cell_joined(cell@, content@),
{
    let mut r = copy_chars(cell);
    if content.len() > 0 {
        if cell.len() > 0 {
            r.push(' ');
        }
        push_chars(&mut r, content);
        proof {
            reveal_strlit(" ");
            assert(r@ =~= cell_joined(cell@, content@));
        }
    }
    r
}

fn append_cell_content(state: &mut State, content: &Vec<char>)
    ensures
        final(state)@ == with_cell_content(old(state)@, content@),
{
    let joined = cell_joined_exec(&state.cell, content);
    state.cell = joined;
    proof {
        assert(state@ =~= with_cell_content(old(state)@, content@));
    }
}

fn append_html(state: &mut State, markup: &Vec<char>)
    ensures
        final(state)@ == with_html(old(state)@, markup@),
{
    push_chars(&mut state.html, markup);
    proof {
        assert(state@ =~= with_html(old(state)@, markup@));
    }
}

fn clear_numbering(state: &mut State)
    ensures
        final(state)@ == without_numbering(old(state)@),
{
    state.num_id = None;
    state.num_level = 0;
    proof {
        assert(state@ =~= without_numbering(old(state)@));
    }
}

fn code_block_markup_exec(content: &Vec<char>, pre: bool) -> (r: Vec<char>)
    ensures
        r@ == code_block_markup(content@, pre),
{
    let mut block: Vec<char> = Vec::new();
    push_str(&mut block, "<pre><code>");
    push_chars(&mut block, &code_block_content_exec(content, pre));
    push_str(&mut block, "</code></pre>\n\n");
    assert(block@ =~= code_block_markup(content@, pre));
    block
}

fn block_markup_exec(heading: u8, content: &Vec<char>) -> (r: Vec<char>)
    ensures
        r@ == block_markup(heading, content@),
{
    let mut block: Vec<char> = Vec::new();
    let tag = block_tag_exec(heading);
    push_element(&mut block, string_of(&tag).as_str(), content);
    push_str(&mut block, "\n\n");
    assert(block@ =~= block_markup(heading, content@));
    block
}

fn close_paragraph(state: &mut State)
    ensures
        final(state)@ == closed_paragraph(old(state)@),
{
    let code_para = state.pre || (state.mono_only && state.runs > 0 && state.heading == 0
        && state.num_id.is_none());
    let pre = state.pre;
    let heading = state.heading;
    let content = take_paragraph(state);
    if state.in_table {
        append_cell_content(state, &content);
    } else if code_para {
        // A code paragraph: keep its text verbatim.
        flush_lists(state);
        append_html(state, &code_block_markup_exec(&content, pre));
    } else if state.num_id.is_some() && content.len() > 0 {
        let level = state.num_level;
        let tag = list_tag(&state.numbering, state.num_id.as_ref(), level);
        emit_list_item(state, level, tag, content);
    } else if content.len() > 0 {
        // A single trailing blank line separates each block.
        flush_lists(state);
        append_html(state, &block_markup_exec(heading, &content));
    } else {
        // Empty paragraphs in the document are ignored so they cannot double
        // up that spacing.
        flush_lists(state);
    }
    clear_numbering(state);
}

/// The state after an end tag.
pub fn close(name: &Vec<char>, state: &mut State)
    requires
        tag_kind(name@) == TagKind::Run ==> old(state).runs < usize::MAX,
    ensures
        final(state)@ == close_tag(old(state)@, name@),
{
    match tag_kind_of(name) {
        TagKind::Text => set_in_text(state, false),
        TagKind::Run => close_run(state),
        TagKind::Hyperlink => close_hyperlink(state),
        TagKind::TableCell => close_cell(state),
        TagKind::TableRow => close_row(state),
        TagKind::Table => close_table(state),
        TagKind::Paragraph => close_paragraph(state),
        _ => {},
    }
}


// ---------------------------------------------------------------------------
// The document
// ---------------------------------------------------------------------------

/// The state after text content: inside a `w:t` element it joins the run,
/// escaped; code keeps its tabs and newlines, everywhere else whitespace
/// collapses to single spaces.
pub open spec fn text_step(s: DocState, text: Seq<char>) -> DocState {
    if s.in_text {
        with_run_text(s, escaped(text, s.pre || s.mono))
    } else {
        s
    }
}

/// The state after one event; an empty-element tag opens and closes.
pub open spec fn doc_step(s: DocState, e: EventView, rels: Map<Seq<char>, Seq<char>>) -> DocState {
    match e {
        EventView::Start(t) => open_tag(s, t, rels),
        EventView::Empty(t) => close_tag(open_tag(s, t, rels), t.name),
        EventView::Text(x) => text_step(s, x),
        EventView::End(n) => close_tag(s, n),
    }
}

/// The state after a stream of events.
pub open spec fn doc_run(
    events: Seq<EventView>,
    rels: Map<Seq<char>, Seq<char>>,
    numbering: Map<Seq<char>, Seq<ListTag>>,
) -> DocState
    decreases events.len(),
{
    if events.len() == 0 {
        initial_state(numbering)
    } else {
        doc_step(doc_run(events.drop_last(), rels, numbering), events.last(), rels)
    }
}

/// The HTML of a document: what the events produce, with the lists still
/// open at the end closed and adjacent identical formatting merged.
pub open spec fn document_html(
    events: Seq<EventView>,
    rels: Map<Seq<char>, Seq<char>>,
    numbering: Map<Seq<char>, Seq<ListTag>>,
) -> Seq<char> {
    merged(flushed(doc_run(events, rels, numbering)).html)
}

proof fn lemma_open_keeps_runs(s: DocState, t: TagView, rels: Map<Seq<char>, Seq<char>>)
    ensures
        open_tag(s, t, rels).runs <= s.runs,
{
}

proof fn lemma_close_counts_runs(s: DocState, n: Seq<char>)
    ensures
        close_tag(s, n).runs <= s.runs + 1,
{
}

fn append_text(state: &mut State, text: &Vec<char>)
    ensures
        final(state)@ == text_step(old(state)@, text@),
{
    if state.in_text {
        // Code content keeps its tabs and newlines; everywhere else
        // whitespace collapses to single spaces.
        let e = escape_chars(text, state.pre || state.mono);
        push_chars(&mut state.run, &e);
        proof {
            assert(state@ =~= text_step(old(state)@, text@));
        }
    }
}

/// The HTML of a document given as a stream of events.
pub fn document_from_events(events: &Vec<XmlEvent>, rels: &Relationships, numbering: Numbering) -> (r:
    String)
    ensures
        r@ == document_html(events.deep_view(), rels@, numbering@),
{
    let ghost numbering_view = numbering@;
    let mut state = State::new(numbering);
    let mut i: usize = 0;
    while i < events.len()
        invariant
            i <= events.len(),
            state@ == doc_run(events.deep_view().take(i as int), rels@, numbering_view),
            state.runs <= i,
        decreases events.len() - i,
    {
        assert(events.deep_view().take(i + 1).drop_last() == events.deep_view().take(i as int));
        assert(events.deep_view().take(i + 1).last() == events@[i as int]@);
        let ghost before = state@;
        match &events[i] {
            XmlEvent::Start(t) => {
                open(t, &mut state, rels);
                proof {
                    lemma_open_keeps_runs(before, t@, rels@);
                }
            },
            XmlEvent::Empty(t) => {
                open(t, &mut state, rels);
                proof {
                    lemma_open_keeps_runs(before, t@, rels@);
                }
                let ghost mid = state@;
                close(&t.name, &mut state);
                proof {
                    lemma_close_counts_runs(mid, t@.name);
                }
            },
            XmlEvent::Text(x) => append_text(&mut state, x),
            XmlEvent::End(n) => {
                close(n, &mut state);
                proof {
                    lemma_close_counts_runs(before, n@);
                }
            },
        }
        i += 1;
    }
    assert(events.deep_view().take(events.len() as int) == events.deep_view());
    flush_lists(&mut state);
    merge_adjacent(string_of(&state.html).as_str())
}

/// Converts `word/document.xml` to HTML, given the document's hyperlink
/// relationships and list numbering.
pub fn parse_document(xml: &str, rels: &Relationships, numbering: Numbering) -> (r: String)
    ensures
        r@ == document_html(xml_events(xml@), rels@, numbering@),
{
    let events = read_xml_events(xml);
    document_from_events(&events, rels, numbering)
}

} // verus!
