//! What every step of the conversion keeps: open lists stay nested by indent
//! level, and the HTML produced so far is only ever extended; and what some
//! start tags do to the state.
use vstd::prelude::*;

use crate::convert::{
    close_deeper, close_tag, doc_run, doc_step, flushed, lists_well_formed, open_levels, open_tag,
    with_list_item, DocState, OpenListView,
};
use crate::tables::ListTag;
use crate::xml::{EventView, TagView};

verus! {

proof fn lemma_close_deeper_nested(html: Seq<char>, stack: Seq<OpenListView>, level: u8)
    requires
        lists_well_formed(stack),
    ensures
        lists_well_formed(close_deeper(html, stack, level).1),
        close_deeper(html, stack, level).1.len() == if stack.len() <= level + 1 {
            stack.len() as int
        } else {
            level + 1
        },
    decreases stack.len(),
{
    if stack.len() > 0 && stack.last().level > level {
        let rest = stack.drop_last();
        assert(stack[stack.len() - 1].level == stack.len() - 1);
        assert(lists_well_formed(rest)) by {
            assert forall|i: int| 0 <= i < rest.len() implies (#[trigger] rest[i]).level == i by {
                assert(rest[i] == stack[i]);
            }
        }
        lemma_close_deeper_nested(
            html + crate::convert::list_close_markup(stack.last().tag),
            rest,
            level,
        );
    } else if stack.len() > 0 {
        assert(stack[stack.len() - 1].level == stack.len() - 1);
    }
}

proof fn lemma_open_levels_nested(
    html: Seq<char>,
    stack: Seq<OpenListView>,
    level: u8,
    numbering: Map<Seq<char>, Seq<ListTag>>,
    num_id: Option<Seq<char>>,
)
    requires
        lists_well_formed(stack),
        stack.len() <= level + 1,
    ensures
        lists_well_formed(open_levels(html, stack, level, numbering, num_id).1),
        open_levels(html, stack, level, numbering, num_id).1.len() == level + 1,
    decreases level + 1 - stack.len(),
{
    if stack.len() <= level {
        let idx = stack.len() as u8;
        let t = crate::tables::list_tag_of(numbering, num_id, idx);
        let pushed = stack.push(OpenListView { level: idx, tag: t, num_id });
        assert(lists_well_formed(pushed)) by {
            assert forall|i: int| 0 <= i < pushed.len() implies (#[trigger] pushed[i]).level
                == i by {
                if i < stack.len() {
                    assert(pushed[i] == stack[i]);
                }
            }
        }
        lemma_open_levels_nested(
            html + "<"@ + crate::tables::list_tag_name(t) + ">\n"@,
            pushed,
            level,
            numbering,
            num_id,
        );
    }
}

/// A list item at indent level `level` leaves exactly `level + 1` lists
/// open, nested by level: deeper lists have closed and missing outer ones
/// have opened.
pub proof fn law_list_item_nests(s: DocState, level: u8, tag: ListTag, content: Seq<char>)
    requires
        lists_well_formed(s.list_stack),
    ensures
        lists_well_formed(with_list_item(s, level, tag, content).list_stack),
        with_list_item(s, level, tag, content).list_stack.len() == level + 1,
{
    let (h1, st1) = close_deeper(s.html, s.list_stack, level);
    lemma_close_deeper_nested(s.html, s.list_stack, level);
    let same_level = st1.len() > 0 && st1.last().level == level;
    if st1.len() > 0 {
        assert(st1[st1.len() - 1].level == st1.len() - 1);
    }
    let restart = same_level && (st1.last().tag != tag || st1.last().num_id != s.num_id);
    let st3 = if restart {
        st1.drop_last()
    } else {
        st1
    };
    assert(lists_well_formed(st3)) by {
        if restart {
            assert forall|i: int| 0 <= i < st3.len() implies (#[trigger] st3[i]).level == i by {
                assert(st3[i] == st1[i]);
            }
        }
    }
    let h2 = if same_level {
        h1 + "</li>\n"@
    } else {
        h1
    };
    let h3 = if restart {
        h2 + "</"@ + crate::tables::list_tag_name(st1.last().tag) + ">\n"@
    } else {
        h2
    };
    lemma_open_levels_nested(h3, st3, level, s.numbering, s.num_id);
}

proof fn lemma_open_levels_top(
    html: Seq<char>,
    stack: Seq<OpenListView>,
    level: u8,
    numbering: Map<Seq<char>, Seq<ListTag>>,
    num_id: Option<Seq<char>>,
)
    ensures
        stack.len() <= level ==> open_levels(html, stack, level, numbering, num_id).1.len() > 0
            && open_levels(html, stack, level, numbering, num_id).1.last() == (OpenListView {
            level,
            tag: crate::tables::list_tag_of(numbering, num_id, level),
            num_id,
        }),
        stack.len() > level ==> open_levels(html, stack, level, numbering, num_id) == (html, stack),
    decreases level + 1 - stack.len(),
{
    if stack.len() <= level {
        let idx = stack.len() as u8;
        let t = crate::tables::list_tag_of(numbering, num_id, idx);
        let pushed = stack.push(OpenListView { level: idx, tag: t, num_id });
        lemma_open_levels_top(
            html + "<"@ + crate::tables::list_tag_name(t) + ">\n"@,
            pushed,
            level,
            numbering,
            num_id,
        );
    }
}

/// A list item ends up in the list that its level, element and numbering
/// instance call for: the innermost open list is at the item's level, has
/// the element that the numbering gives for that level and the paragraph's
/// numbering id; the HTML is only extended, and ends with the item's start
/// and content.
pub proof fn law_list_item_lands_in_its_list(
    s: DocState,
    level: u8,
    tag: ListTag,
    content: Seq<char>,
)
    requires
        lists_well_formed(s.list_stack),
        tag == crate::tables::list_tag_of(s.numbering, s.num_id, level),
    ensures
        with_list_item(s, level, tag, content).list_stack.len() == level + 1,
        with_list_item(s, level, tag, content).list_stack.last() == (OpenListView {
            level,
            tag,
            num_id: s.num_id,
        }),
        s.html.is_prefix_of(with_list_item(s, level, tag, content).html),
        with_list_item(s, level, tag, content).html.len() >= content.len() + 4,
        with_list_item(s, level, tag, content).html.subrange(
            with_list_item(s, level, tag, content).html.len() - (content.len() + 4),
            with_list_item(s, level, tag, content).html.len() as int,
        ) == "<li>"@ + content,
{
    reveal_strlit("<li>");
    law_list_item_nests(s, level, tag, content);
    lemma_list_item_extends(s, level, tag, content);
    let (h1, st1) = close_deeper(s.html, s.list_stack, level);
    lemma_close_deeper_nested(s.html, s.list_stack, level);
    if st1.len() > 0 {
        assert(st1[st1.len() - 1].level == st1.len() - 1);
    }
    let same_level = st1.len() > 0 && st1.last().level == level;
    let restart = same_level && (st1.last().tag != tag || st1.last().num_id != s.num_id);
    let st3 = if restart {
        st1.drop_last()
    } else {
        st1
    };
    let h2 = if same_level {
        h1 + "</li>\n"@
    } else {
        h1
    };
    let h3 = if restart {
        h2 + "</"@ + crate::tables::list_tag_name(st1.last().tag) + ">\n"@
    } else {
        h2
    };
    lemma_open_levels_top(h3, st3, level, s.numbering, s.num_id);
    let (h4, st4) = open_levels(h3, st3, level, s.numbering, s.num_id);
    let r = with_list_item(s, level, tag, content);
    assert(r.html == h4 + "<li>"@ + content);
    assert(r.html.subrange(r.html.len() - (content.len() + 4), r.html.len() as int) =~= "<li>"@
        + content);
}

proof fn lemma_open_tag_lists(s: DocState, t: TagView, rels: Map<Seq<char>, Seq<char>>)
    ensures
        open_tag(s, t, rels).list_stack == s.list_stack || open_tag(s, t, rels).list_stack.len()
            == 0,
{
}

proof fn lemma_close_tag_lists(s: DocState, n: Seq<char>)
    requires
        lists_well_formed(s.list_stack),
    ensures
        lists_well_formed(close_tag(s, n).list_stack),
{
    let s0 = crate::convert::without_paragraph(s);
    if !s.in_table && !crate::convert::is_code_paragraph(s) && s.num_id is Some
        && s.paragraph.len() > 0 {
        law_list_item_nests(
            s0,
            s.num_level,
            crate::tables::list_tag_of(s.numbering, s.num_id, s.num_level),
            s.paragraph,
        );
    }
}

/// Every step of the conversion keeps the open lists nested by indent
/// level: the list at depth `i` of the stack is the one for level `i`.
pub proof fn law_step_keeps_lists_nested(
    s: DocState,
    e: EventView,
    rels: Map<Seq<char>, Seq<char>>,
)
    requires
        lists_well_formed(s.list_stack),
    ensures
        lists_well_formed(doc_step(s, e, rels).list_stack),
{
    match e {
        EventView::Start(t) => {
            lemma_open_tag_lists(s, t, rels);
        },
        EventView::Empty(t) => {
            lemma_open_tag_lists(s, t, rels);
            lemma_close_tag_lists(open_tag(s, t, rels), t.name);
        },
        EventView::Text(x) => {},
        EventView::End(n) => {
            lemma_close_tag_lists(s, n);
        },
    }
}

/// Throughout a document the open lists are nested by indent level.
pub proof fn law_document_lists_nested(
    events: Seq<EventView>,
    rels: Map<Seq<char>, Seq<char>>,
    numbering: Map<Seq<char>, Seq<ListTag>>,
)
    ensures
        lists_well_formed(doc_run(events, rels, numbering).list_stack),
    decreases events.len(),
{
    if events.len() > 0 {
        law_document_lists_nested(events.drop_last(), rels, numbering);
        law_step_keeps_lists_nested(
            doc_run(events.drop_last(), rels, numbering),
            events.last(),
            rels,
        );
    }
}

proof fn lemma_prefix_add(a: Seq<char>, x: Seq<char>)
    ensures
        a.is_prefix_of(a + x),
{
    assert(a =~= (a + x).subrange(0, a.len() as int));
}

proof fn lemma_prefix_trans(a: Seq<char>, b: Seq<char>, c: Seq<char>)
    requires
        a.is_prefix_of(b),
        b.is_prefix_of(c),
    ensures
        a.is_prefix_of(c),
{
    assert(a =~= c.subrange(0, a.len() as int)) by {
        assert forall|i: int| 0 <= i < a.len() implies a[i] == c.subrange(0, a.len() as int)[i] by {
            assert(a[i] == b.subrange(0, a.len() as int)[i]);
            assert(b[i] == c.subrange(0, b.len() as int)[i]);
        }
    }
}

proof fn lemma_flushed_extends(s: DocState)
    ensures
        s.html.is_prefix_of(flushed(s).html),
{
    if s.list_stack.len() > 0 {
        lemma_prefix_add(s.html, crate::convert::close_all_markup(s.list_stack) + "\n"@);
        assert(flushed(s).html =~= s.html + (crate::convert::close_all_markup(s.list_stack)
            + "\n"@));
    } else {
        lemma_prefix_add(s.html, seq![]);
        assert(s.html + Seq::<char>::empty() =~= s.html);
    }
}

proof fn lemma_close_deeper_extends(html: Seq<char>, stack: Seq<OpenListView>, level: u8)
    ensures
        html.is_prefix_of(close_deeper(html, stack, level).0),
    decreases stack.len(),
{
    if stack.len() > 0 && stack.last().level > level {
        let h = html + crate::convert::list_close_markup(stack.last().tag);
        lemma_close_deeper_extends(h, stack.drop_last(), level);
        lemma_prefix_add(html, crate::convert::list_close_markup(stack.last().tag));
        lemma_prefix_trans(html, h, close_deeper(h, stack.drop_last(), level).0);
    } else {
        lemma_prefix_add(html, seq![]);
        assert(html + Seq::<char>::empty() =~= html);
    }
}

proof fn lemma_open_levels_extends(
    html: Seq<char>,
    stack: Seq<OpenListView>,
    level: u8,
    numbering: Map<Seq<char>, Seq<ListTag>>,
    num_id: Option<Seq<char>>,
)
    ensures
        html.is_prefix_of(open_levels(html, stack, level, numbering, num_id).0),
    decreases level + 1 - stack.len(),
{
    if stack.len() <= level {
        let idx = stack.len() as u8;
        let t = crate::tables::list_tag_of(numbering, num_id, idx);
        let x = "<"@ + crate::tables::list_tag_name(t) + ">\n"@;
        let h = html + "<"@ + crate::tables::list_tag_name(t) + ">\n"@;
        assert(h =~= html + x);
        let pushed = stack.push(OpenListView { level: idx, tag: t, num_id });
        lemma_open_levels_extends(h, pushed, level, numbering, num_id);
        lemma_prefix_add(html, x);
        lemma_prefix_trans(html, h, open_levels(h, pushed, level, numbering, num_id).0);
    } else {
        lemma_prefix_add(html, seq![]);
        assert(html + Seq::<char>::empty() =~= html);
    }
}

proof fn lemma_list_item_extends(s: DocState, level: u8, tag: ListTag, content: Seq<char>)
    ensures
        s.html.is_prefix_of(with_list_item(s, level, tag, content).html),
{
    let (h1, st1) = close_deeper(s.html, s.list_stack, level);
    lemma_close_deeper_extends(s.html, s.list_stack, level);
    let same_level = st1.len() > 0 && st1.last().level == level;
    let h2 = if same_level {
        h1 + "</li>\n"@
    } else {
        h1
    };
    lemma_prefix_add(h1, "</li>\n"@);
    lemma_prefix_add(h1, seq![]);
    assert(h1 + Seq::<char>::empty() =~= h1);
    let restart = same_level && (st1.last().tag != tag || st1.last().num_id != s.num_id);
    let x = "</"@ + crate::tables::list_tag_name(st1.last().tag) + ">\n"@;
    let (h3, st3) = if restart {
        (h2 + "</"@ + crate::tables::list_tag_name(st1.last().tag) + ">\n"@, st1.drop_last())
    } else {
        (h2, st1)
    };
    lemma_prefix_add(h2, x);
    assert(h2 + "</"@ + crate::tables::list_tag_name(st1.last().tag) + ">\n"@ =~= h2 + x);
    lemma_prefix_add(h2, seq![]);
    assert(h2 + Seq::<char>::empty() =~= h2);
    let (h4, st4) = open_levels(h3, st3, level, s.numbering, s.num_id);
    lemma_open_levels_extends(h3, st3, level, s.numbering, s.num_id);
    lemma_prefix_add(h4, "<li>"@ + content);
    assert(h4 + "<li>"@ + content =~= h4 + ("<li>"@ + content));
    lemma_prefix_trans(s.html, h1, h2);
    lemma_prefix_trans(s.html, h2, h3);
    lemma_prefix_trans(s.html, h3, h4);
    lemma_prefix_trans(s.html, h4, h4 + "<li>"@ + content);
}

proof fn lemma_open_tag_extends(s: DocState, t: TagView, rels: Map<Seq<char>, Seq<char>>)
    ensures
        s.html.is_prefix_of(open_tag(s, t, rels).html),
{
    lemma_flushed_extends(s);
    lemma_prefix_add(s.html, seq![]);
    assert(s.html + Seq::<char>::empty() =~= s.html);
}

proof fn lemma_close_tag_extends(s: DocState, n: Seq<char>)
    ensures
        s.html.is_prefix_of(close_tag(s, n).html),
{
    let s0 = crate::convert::without_paragraph(s);
    lemma_prefix_add(s.html, seq![]);
    assert(s.html + Seq::<char>::empty() =~= s.html);
    lemma_flushed_extends(s0);
    let table = crate::convert::append_if(s.table, "</tbody>\n"@, s.tbody_open)
        + "</table>\n\n"@;
    lemma_prefix_add(s.html, table);
    let code = crate::convert::code_block_markup(s.paragraph, s.pre);
    lemma_prefix_add(flushed(s0).html, code);
    lemma_prefix_trans(s.html, flushed(s0).html, flushed(s0).html + code);
    let block = crate::convert::block_markup(s.heading, s.paragraph);
    lemma_prefix_add(flushed(s0).html, block);
    lemma_prefix_trans(s.html, flushed(s0).html, flushed(s0).html + block);
    lemma_list_item_extends(
        s0,
        s.num_level,
        crate::tables::list_tag_of(s.numbering, s.num_id, s.num_level),
        s.paragraph,
    );
}

/// The HTML is only ever extended: no step of the conversion rewrites or
/// drops what earlier steps produced.
pub proof fn law_step_extends_html(s: DocState, e: EventView, rels: Map<Seq<char>, Seq<char>>)
    ensures
        s.html.is_prefix_of(doc_step(s, e, rels).html),
{
    match e {
        EventView::Start(t) => {
            lemma_open_tag_extends(s, t, rels);
        },
        EventView::Empty(t) => {
            lemma_open_tag_extends(s, t, rels);
            lemma_close_tag_extends(open_tag(s, t, rels), t.name);
            lemma_prefix_trans(
                s.html,
                open_tag(s, t, rels).html,
                close_tag(open_tag(s, t, rels), t.name).html,
            );
        },
        EventView::Text(x) => {
            lemma_prefix_add(s.html, seq![]);
            assert(s.html + Seq::<char>::empty() =~= s.html);
        },
        EventView::End(n) => {
            lemma_close_tag_extends(s, n);
        },
    }
}

/// Empty paragraphs are skipped: outside tables and code, a paragraph with
/// no content adds no block (it only closes the open lists, as any
/// paragraph that is not a list item does).
pub proof fn law_empty_paragraph_is_skipped(s: DocState)
    requires
        !s.in_table,
        !crate::convert::is_code_paragraph(s),
        s.paragraph.len() == 0,
    ensures
        crate::convert::closed_paragraph(s).html == flushed(s).html,
{
}

/// Paragraphs inside one table cell are joined with a space, and nothing
/// reaches the output until the table ends.
pub proof fn law_cell_paragraphs_join_with_space(s: DocState)
    requires
        s.in_table,
        s.cell.len() > 0,
        s.paragraph.len() > 0,
    ensures
        crate::convert::closed_paragraph(s).cell == s.cell + " "@ + s.paragraph,
        crate::convert::closed_paragraph(s).html == s.html,
{
}

proof fn lemma_open_run_style(s: DocState, t: TagView, rels: Map<Seq<char>, Seq<char>>)
    requires
        crate::convert::tag_kind(t.name) == crate::convert::TagKind::RunStyle,
    ensures
        open_tag(s, t, rels) == crate::convert::with_run_style(
            s,
            crate::convert::run_style_flags(crate::xml::attr_lookup(t.attrs, "w:val"@)),
        ),
{
}

proof fn lemma_run_style_fields(s: DocState, flags: (bool, bool, bool))
    ensures
        crate::convert::with_run_style(s, flags) == (DocState {
            bold: s.bold || flags.0,
            italic: s.italic || flags.1,
            mono: s.mono || flags.2,
            ..s
        }),
{
    let s1 = if flags.0 {
        crate::convert::with_bold(s, true)
    } else {
        s
    };
    let s2 = if flags.1 {
        crate::convert::with_italic(s1, true)
    } else {
        s1
    };
    let s3 = if flags.2 {
        crate::convert::with_mono(s2, true)
    } else {
        s2
    };
    assert(s3 =~= DocState {
        bold: s.bold || flags.0,
        italic: s.italic || flags.1,
        mono: s.mono || flags.2,
        ..s
    });
}

/// A character style only adds formatting: `Strong` makes the run bold,
/// `Emphasis` italic, and a code style monospace; nothing else changes.
pub proof fn law_character_style_adds_formatting(
    s: DocState,
    t: TagView,
    rels: Map<Seq<char>, Seq<char>>,
)
    requires
        crate::convert::tag_kind(t.name) == crate::convert::TagKind::RunStyle,
    ensures
        ({
            let v = crate::xml::attr_lookup(t.attrs, "w:val"@);
            let r = open_tag(s, t, rels);
            &&& r.bold == (s.bold || (v is Some && crate::text::unicode_lowercase(v.unwrap())
                == "strong"@))
            &&& r.italic == (s.italic || (v is Some && crate::text::unicode_lowercase(v.unwrap())
                == "emphasis"@))
            &&& r.mono == (s.mono || (v is Some && crate::styles::mono_style_name(
                crate::styles::normalized_style(v.unwrap()),
            )))
            &&& r == DocState { bold: r.bold, italic: r.italic, mono: r.mono, ..s }
        }),
{
    let v = crate::xml::attr_lookup(t.attrs, "w:val"@);
    let flags = crate::convert::run_style_flags(v);
    lemma_open_run_style(s, t, rels);
    lemma_run_style_fields(s, flags);
    assert("strong"@ != "emphasis"@) by {
        reveal_strlit("strong");
        reveal_strlit("emphasis");
        assert("strong"@.len() != "emphasis"@.len());
    }
}

/// A hyperlink starts with no text and the target that its attributes give.
pub proof fn law_hyperlink_opens_link(s: DocState, t: TagView, rels: Map<Seq<char>, Seq<char>>)
    requires
        crate::convert::tag_kind(t.name) == crate::convert::TagKind::Hyperlink,
    ensures
        open_tag(s, t, rels) == (DocState {
            link_text: seq![],
            href: crate::convert::hyperlink_target(t.attrs, rels),
            ..s
        }),
{
}

/// The attributes of a hyperlink with an optional relationship id and an
/// optional bookmark anchor, in that order.
pub open spec fn link_attributes(rid: Option<Seq<char>>, anchor: Option<Seq<char>>) -> Seq<
    crate::xml::AttrView,
> {
    (match rid {
        Some(id) => seq![crate::xml::AttrView { key: "r:id"@, value: id, raw: id }],
        None => seq![],
    }) + (match anchor {
        Some(a) => seq![crate::xml::AttrView { key: "w:anchor"@, value: a, raw: a }],
        None => seq![],
    })
}

/// Where a hyperlink points: the target of its relationship id when the
/// relationships know it, else `#` and its bookmark anchor when that is not
/// empty, else nowhere (its text stays plain).
pub proof fn law_link_target(
    rid: Option<Seq<char>>,
    anchor: Option<Seq<char>>,
    rels: Map<Seq<char>, Seq<char>>,
)
    ensures
        crate::convert::hyperlink_target(link_attributes(rid, anchor), rels) == (match rid {
            Some(id) if rels.contains_key(id) => Some(rels[id]),
            _ => match anchor {
                Some(a) if a.len() > 0 => Some("#"@ + a),
                _ => None,
            },
        }),
{
    reveal_strlit("w:anchor");
    reveal_strlit("anchor");
    reveal_strlit("r:id");
    reveal_strlit("id");
    let attrs = link_attributes(rid, anchor);
    let empty = Seq::<crate::xml::AttrView>::empty();
    assert(crate::convert::link_targets(empty, rels) == (None::<Seq<char>>, None::<Seq<char>>));
    assert("w:anchor"@.len() != "r:id"@.len() && "w:anchor"@.len() != "id"@.len());
    assert("r:id"@.len() != "w:anchor"@.len() && "r:id"@.len() != "anchor"@.len());
    match (rid, anchor) {
        (Some(id), Some(a)) => {
            let r = seq![crate::xml::AttrView { key: "r:id"@, value: id, raw: id }];
            assert(attrs.drop_last() =~= r);
            assert(r.drop_last() =~= empty);
            assert(attrs.last().key == "w:anchor"@);
            assert(r.last().key == "r:id"@);
            assert(crate::convert::link_targets(r, rels) == (
                if rels.contains_key(id) {
                    Some(rels[id])
                } else {
                    None
                },
                None::<Seq<char>>,
            ));
        },
        (Some(id), None) => {
            assert(attrs.drop_last() =~= empty);
            assert(attrs.last().key == "r:id"@);
        },
        (None, Some(a)) => {
            assert(attrs.drop_last() =~= empty);
            assert(attrs.last().key == "w:anchor"@);
        },
        (None, None) => {
            assert(attrs =~= empty);
        },
    }
}

// ---------------------------------------------------------------------------
// List markup
// ---------------------------------------------------------------------------

/// A piece of list markup.
pub enum ListMark {
    OpenList(ListTag),
    OpenItem,
    CloseItem,
    CloseList(ListTag),
}

/// What is open while list markup is read: a list element or an item.
pub enum OpenFrame {
    List(ListTag),
    Item,
}

/// The text of a piece of list markup.
pub open spec fn mark_text(m: ListMark) -> Seq<char> {
    match m {
        ListMark::OpenList(t) => "<"@ + crate::tables::list_tag_name(t) + ">\n"@,
        ListMark::OpenItem => "<li>"@,
        ListMark::CloseItem => "</li>\n"@,
        ListMark::CloseList(t) => "</"@ + crate::tables::list_tag_name(t) + ">\n"@,
    }
}

/// The text of a run of list markup.
pub open spec fn marks_text(ms: Seq<ListMark>) -> Seq<char>
    decreases ms.len(),
{
    if ms.len() == 0 {
        seq![]
    } else {
        marks_text(ms.drop_last()) + mark_text(ms.last())
    }
}

/// What is open after one piece of markup, or `None` if it closes what is
/// not innermost.
pub open spec fn mark_step(m: ListMark, open: Seq<OpenFrame>) -> Option<Seq<OpenFrame>> {
    match m {
        ListMark::OpenList(t) => Some(open.push(OpenFrame::List(t))),
        ListMark::OpenItem => Some(open.push(OpenFrame::Item)),
        ListMark::CloseItem => if open.len() > 0 && open.last() == OpenFrame::Item {
            Some(open.drop_last())
        } else {
            None
        },
        ListMark::CloseList(t) => if open.len() > 0 && open.last() == OpenFrame::List(t) {
            Some(open.drop_last())
        } else {
            None
        },
    }
}

/// What is open after a run of markup read with `open` open; `None` if the
/// run closes anything out of order.
pub open spec fn marks_apply(ms: Seq<ListMark>, open: Seq<OpenFrame>) -> Option<Seq<OpenFrame>>
    decreases ms.len(),
{
    if ms.len() == 0 {
        Some(open)
    } else {
        match marks_apply(ms.drop_last(), open) {
            Some(o) => mark_step(ms.last(), o),
            None => None,
        }
    }
}

/// What the open lists of a stack leave open: each list and, inside it, its
/// current item.
pub open spec fn open_frames(stack: Seq<OpenListView>) -> Seq<OpenFrame>
    decreases stack.len(),
{
    if stack.len() == 0 {
        seq![]
    } else {
        open_frames(stack.drop_last()) + seq![OpenFrame::List(stack.last().tag), OpenFrame::Item]
    }
}

proof fn lemma_marks_concat(a: Seq<ListMark>, b: Seq<ListMark>, open: Seq<OpenFrame>)
    ensures
        marks_text(a + b) == marks_text(a) + marks_text(b),
        marks_apply(a + b, open) == match marks_apply(a, open) {
            Some(o) => marks_apply(b, o),
            None => None,
        },
    decreases b.len(),
{
    if b.len() == 0 {
        assert(a + b =~= a);
        assert(marks_text(a) + marks_text(b) =~= marks_text(a));
        match marks_apply(a, open) {
            Some(o) => {},
            None => {},
        }
    } else {
        assert((a + b).drop_last() =~= a + b.drop_last());
        assert((a + b).last() == b.last());
        lemma_marks_concat(a, b.drop_last(), open);
        assert(marks_text(a) + marks_text(b.drop_last()) + mark_text(b.last()) =~= marks_text(a)
            + (marks_text(b.drop_last()) + mark_text(b.last())));
        match marks_apply(a, open) {
            Some(o) => {},
            None => {},
        }
    }
}

proof fn lemma_marks_one(m: ListMark, open: Seq<OpenFrame>)
    ensures
        marks_text(seq![m]) == mark_text(m),
        marks_apply(seq![m], open) == mark_step(m, open),
{
    let e = Seq::<ListMark>::empty();
    assert(seq![m].drop_last() =~= e);
    assert(seq![m].last() == m);
    assert(marks_text(e) == Seq::<char>::empty());
    assert(marks_apply(e, open) == Some(open));
    assert(Seq::<char>::empty() + mark_text(m) =~= mark_text(m));
}

/// The markup that closes a list: its item, then the list.
pub open spec fn close_marks(t: ListTag) -> Seq<ListMark> {
    seq![ListMark::CloseItem, ListMark::CloseList(t)]
}

proof fn lemma_close_marks(t: ListTag, open: Seq<OpenFrame>)
    ensures
        marks_text(close_marks(t)) == crate::convert::list_close_markup(t),
        marks_apply(close_marks(t), open + seq![OpenFrame::List(t), OpenFrame::Item]) == Some(
            open,
        ),
{
    let ms = close_marks(t);
    let o = open + seq![OpenFrame::List(t), OpenFrame::Item];
    assert(ms.drop_last() =~= seq![ListMark::CloseItem]);
    lemma_marks_one(ListMark::CloseItem, o);
    assert(o.drop_last() =~= open + seq![OpenFrame::List(t)]);
    assert((open + seq![OpenFrame::List(t)]).drop_last() =~= open);
    assert(marks_text(ms) =~= crate::convert::list_close_markup(t));
}

/// The markup that closes the lists deeper than `level`, innermost first.
pub open spec fn deeper_marks(stack: Seq<OpenListView>, level: u8) -> Seq<ListMark>
    decreases stack.len(),
{
    if stack.len() > 0 && stack.last().level > level {
        close_marks(stack.last().tag) + deeper_marks(stack.drop_last(), level)
    } else {
        seq![]
    }
}

proof fn lemma_deeper_marks(html: Seq<char>, stack: Seq<OpenListView>, level: u8)
    ensures
        close_deeper(html, stack, level).0 == html + marks_text(deeper_marks(stack, level)),
        marks_apply(deeper_marks(stack, level), open_frames(stack)) == Some(
            open_frames(close_deeper(html, stack, level).1),
        ),
    decreases stack.len(),
{
    if stack.len() > 0 && stack.last().level > level {
        let t = stack.last().tag;
        let rest = stack.drop_last();
        lemma_deeper_marks(html + crate::convert::list_close_markup(t), rest, level);
        lemma_close_marks(t, open_frames(rest));
        lemma_marks_concat(close_marks(t), deeper_marks(rest, level), open_frames(stack));
        assert(html + crate::convert::list_close_markup(t) + marks_text(deeper_marks(rest, level))
            =~= html + (marks_text(close_marks(t)) + marks_text(deeper_marks(rest, level))));
    } else {
        assert(marks_text(Seq::<ListMark>::empty()) =~= Seq::<char>::empty());
        assert(html + Seq::<char>::empty() =~= html);
    }
}

/// The markup that closes every list of a stack, innermost first.
pub open spec fn all_close_marks(stack: Seq<OpenListView>) -> Seq<ListMark>
    decreases stack.len(),
{
    if stack.len() == 0 {
        seq![]
    } else {
        close_marks(stack.last().tag) + all_close_marks(stack.drop_last())
    }
}

proof fn lemma_all_close_marks(stack: Seq<OpenListView>)
    ensures
        crate::convert::close_all_markup(stack) == marks_text(all_close_marks(stack)),
        marks_apply(all_close_marks(stack), open_frames(stack)) == Some(Seq::<OpenFrame>::empty()),
    decreases stack.len(),
{
    if stack.len() > 0 {
        let t = stack.last().tag;
        let rest = stack.drop_last();
        lemma_all_close_marks(rest);
        lemma_close_marks(t, open_frames(rest));
        lemma_marks_concat(close_marks(t), all_close_marks(rest), open_frames(stack));
    } else {
        assert(marks_text(Seq::<ListMark>::empty()) =~= Seq::<char>::empty());
    }
}

/// Closing the lists emits well-nested markup: it closes every open item
/// and list, innermost first, and leaves nothing open.
pub proof fn law_flush_closes_lists_in_order(s: DocState)
    ensures
        s.list_stack.len() > 0 ==> exists|ms: Seq<ListMark>|
            #![trigger marks_text(ms)]
            flushed(s).html == s.html + marks_text(ms) + "\n"@ && marks_apply(
                ms,
                open_frames(s.list_stack),
            ) == Some(Seq::<OpenFrame>::empty()),
        flushed(s).list_stack.len() == 0,
{
    if s.list_stack.len() > 0 {
        let ms = all_close_marks(s.list_stack);
        lemma_all_close_marks(s.list_stack);
        assert(flushed(s).html == s.html + marks_text(ms) + "\n"@);
    }
}

proof fn lemma_same_level_marks(
    h1: Seq<char>,
    st1: Seq<OpenListView>,
    level: u8,
    tag: ListTag,
    num_id: Option<Seq<char>>,
) -> (m2: Seq<ListMark>)
    requires
        lists_well_formed(st1),
    ensures
        ({
            let same_level = st1.len() > 0 && st1.last().level == level;
            let restart = same_level && (st1.last().tag != tag || st1.last().num_id != num_id);
            let st3 = if restart {
                st1.drop_last()
            } else {
                st1
            };
            let h2 = if same_level {
                h1 + "</li>\n"@
            } else {
                h1
            };
            let h3 = if restart {
                h2 + "</"@ + crate::tables::list_tag_name(st1.last().tag) + ">\n"@
            } else {
                h2
            };
            let f3 = if same_level && !restart {
                open_frames(st1.drop_last()) + seq![OpenFrame::List(st1.last().tag)]
            } else {
                open_frames(st3)
            };
            &&& h3 == h1 + marks_text(m2)
            &&& marks_apply(m2, open_frames(st1)) == Some(f3)
        }),
{
    reveal_strlit("</li>\n");
    let same_level = st1.len() > 0 && st1.last().level == level;
    let restart = same_level && (st1.last().tag != tag || st1.last().num_id != num_id);
    if same_level {
        let t = st1.last().tag;
        let o = open_frames(st1.drop_last());
        let f1 = open_frames(st1);
        assert(f1 == o + seq![OpenFrame::List(t), OpenFrame::Item]);
        lemma_marks_one(ListMark::CloseItem, f1);
        assert(f1.drop_last() =~= o + seq![OpenFrame::List(t)]);
        if restart {
            lemma_close_marks(t, o);
            let m2 = close_marks(t);
            assert(h1 + "</li>\n"@ + "</"@ + crate::tables::list_tag_name(t) + ">\n"@ =~= h1
                + crate::convert::list_close_markup(t));
            m2
        } else {
            seq![ListMark::CloseItem]
        }
    } else {
        let m2 = Seq::<ListMark>::empty();
        assert(marks_text(m2) == Seq::<char>::empty());
        assert(marks_apply(m2, open_frames(st1)) == Some(open_frames(st1)));
        assert(h1 + marks_text(m2) =~= h1);
        m2
    }
}

proof fn lemma_open_item_marks(
    h3: Seq<char>,
    st3: Seq<OpenListView>,
    f3: Seq<OpenFrame>,
    level: u8,
    numbering: Map<Seq<char>, Seq<ListTag>>,
    num_id: Option<Seq<char>>,
) -> (m3: Seq<ListMark>)
    requires
        (st3.len() == level && f3 == open_frames(st3)) || (st3.len() == level + 1 && f3
            == open_frames(st3.drop_last()) + seq![OpenFrame::List(st3.last().tag)]),
    ensures
        open_levels(h3, st3, level, numbering, num_id).0 + "<li>"@ == h3 + marks_text(m3),
        marks_apply(m3, f3) == Some(open_frames(open_levels(h3, st3, level, numbering, num_id).1)),
{
    reveal_strlit("<li>");
    if st3.len() == level {
        let t = crate::tables::list_tag_of(numbering, num_id, level);
        let pushed = st3.push(OpenListView { level, tag: t, num_id });
        let h = h3 + "<"@ + crate::tables::list_tag_name(t) + ">\n"@;
        assert((st3.len() as u8) == level);
        assert(open_levels(h, pushed, level, numbering, num_id) == (h, pushed));
        assert(open_levels(h3, st3, level, numbering, num_id) == (h, pushed));
        let m3 = seq![ListMark::OpenList(t), ListMark::OpenItem];
        assert(m3.drop_last() =~= seq![ListMark::OpenList(t)]);
        assert(m3.last() == ListMark::OpenItem);
        lemma_marks_one(ListMark::OpenList(t), f3);
        assert(pushed.drop_last() =~= st3);
        assert(open_frames(pushed) =~= f3 + seq![OpenFrame::List(t), OpenFrame::Item]);
        assert(f3.push(OpenFrame::List(t)).push(OpenFrame::Item) =~= open_frames(pushed));
        assert(h + "<li>"@ =~= h3 + marks_text(m3));
        m3
    } else {
        let m3 = seq![ListMark::OpenItem];
        lemma_marks_one(ListMark::OpenItem, f3);
        assert(open_levels(h3, st3, level, numbering, num_id) == (h3, st3));
        assert(open_frames(st3) =~= f3.push(OpenFrame::Item));
        m3
    }
}

/// A list item emits well-nested markup: from what the open lists leave open
/// (each list with its current item), the markup it writes before its content
/// closes only what is innermost and leaves open exactly what the new open
/// lists leave open. This holds when the item is at most one level deeper than
/// the lists open before it; an item that skips a level opens a list inside a
/// list with no item between them.
pub proof fn law_list_item_markup_is_nested(
    s: DocState,
    level: u8,
    tag: ListTag,
    content: Seq<char>,
)
    requires
        lists_well_formed(s.list_stack),
        level <= s.list_stack.len(),
    ensures
        exists|ms: Seq<ListMark>|
            #![trigger marks_text(ms)]
            with_list_item(s, level, tag, content).html == s.html + marks_text(ms) + content
                && marks_apply(ms, open_frames(s.list_stack)) == Some(
                open_frames(with_list_item(s, level, tag, content).list_stack),
            ),
{
    let (h1, st1) = close_deeper(s.html, s.list_stack, level);
    lemma_close_deeper_nested(s.html, s.list_stack, level);
    lemma_deeper_marks(s.html, s.list_stack, level);
    let m1 = deeper_marks(s.list_stack, level);
    if st1.len() > 0 {
        assert(st1[st1.len() - 1].level == st1.len() - 1);
    }
    let same_level = st1.len() > 0 && st1.last().level == level;
    let restart = same_level && (st1.last().tag != tag || st1.last().num_id != s.num_id);
    let m2 = lemma_same_level_marks(h1, st1, level, tag, s.num_id);
    let st3 = if restart {
        st1.drop_last()
    } else {
        st1
    };
    let h2 = if same_level {
        h1 + "</li>\n"@
    } else {
        h1
    };
    let h3 = if restart {
        h2 + "</"@ + crate::tables::list_tag_name(st1.last().tag) + ">\n"@
    } else {
        h2
    };
    let f3 = if same_level && !restart {
        open_frames(st1.drop_last()) + seq![OpenFrame::List(st1.last().tag)]
    } else {
        open_frames(st3)
    };
    let m3 = lemma_open_item_marks(h3, st3, f3, level, s.numbering, s.num_id);
    let r = with_list_item(s, level, tag, content);
    let (h4, st4) = open_levels(h3, st3, level, s.numbering, s.num_id);
    assert(r.html == h4 + "<li>"@ + content);
    assert(r.list_stack == st4);
    let ms = m1 + m2 + m3;
    lemma_marks_concat(m1, m2, open_frames(s.list_stack));
    lemma_marks_concat(m1 + m2, m3, open_frames(s.list_stack));
    assert(r.html =~= s.html + marks_text(ms) + content);
    assert(marks_apply(ms, open_frames(s.list_stack)) == Some(open_frames(r.list_stack)));
}

// ---------------------------------------------------------------------------
// What single elements do
// ---------------------------------------------------------------------------

proof fn lemma_tag_names()
    ensures
        crate::convert::tag_kind("w:p"@) == crate::convert::TagKind::Paragraph,
        crate::convert::tag_kind("w:tr"@) == crate::convert::TagKind::TableRow,
        crate::convert::tag_kind("w:r"@) == crate::convert::TagKind::Run,
        crate::convert::tag_kind("w:br"@) == crate::convert::TagKind::Break,
        crate::convert::tag_kind("w:cr"@) == crate::convert::TagKind::Break,
        crate::convert::tag_kind("w:tab"@) == crate::convert::TagKind::Tab,
        crate::convert::tag_kind("w:t"@) == crate::convert::TagKind::Text,
{
    reveal_strlit("w:p");
    reveal_strlit("w:ilvl");
    reveal_strlit("w:numId");
    reveal_strlit("w:tbl");
    reveal_strlit("w:tblLook");
    reveal_strlit("w:tr");
    reveal_strlit("w:tblHeader");
    reveal_strlit("w:tc");
    reveal_strlit("w:pStyle");
    reveal_strlit("w:hyperlink");
    reveal_strlit("w:r");
    reveal_strlit("w:rFonts");
    reveal_strlit("w:b");
    reveal_strlit("w:bCs");
    reveal_strlit("w:i");
    reveal_strlit("w:iCs");
    reveal_strlit("w:u");
    reveal_strlit("w:strike");
    reveal_strlit("w:dstrike");
    reveal_strlit("w:vertAlign");
    reveal_strlit("w:rStyle");
    reveal_strlit("w:br");
    reveal_strlit("w:cr");
    reveal_strlit("w:tab");
    reveal_strlit("w:sym");
    reveal_strlit("w:t");
    assert("w:p"@.len() == 3 && "w:p"@[2] == 'p');
    assert("w:ilvl"@.len() == 6 && "w:ilvl"@[2] == 'i');
    assert("w:numId"@.len() == 7 && "w:numId"@[2] == 'n');
    assert("w:tbl"@.len() == 5 && "w:tbl"@[2] == 't');
    assert("w:tblLook"@.len() == 9 && "w:tblLook"@[2] == 't');
    assert("w:tr"@.len() == 4 && "w:tr"@[2] == 't');
    assert("w:tblHeader"@.len() == 11 && "w:tblHeader"@[2] == 't');
    assert("w:tc"@.len() == 4 && "w:tc"@[2] == 't');
    assert("w:pStyle"@.len() == 8 && "w:pStyle"@[2] == 'p');
    assert("w:hyperlink"@.len() == 11 && "w:hyperlink"@[2] == 'h');
    assert("w:r"@.len() == 3 && "w:r"@[2] == 'r');
    assert("w:rFonts"@.len() == 8 && "w:rFonts"@[2] == 'r');
    assert("w:b"@.len() == 3 && "w:b"@[2] == 'b');
    assert("w:bCs"@.len() == 5 && "w:bCs"@[2] == 'b');
    assert("w:i"@.len() == 3 && "w:i"@[2] == 'i');
    assert("w:iCs"@.len() == 5 && "w:iCs"@[2] == 'i');
    assert("w:u"@.len() == 3 && "w:u"@[2] == 'u');
    assert("w:strike"@.len() == 8 && "w:strike"@[2] == 's');
    assert("w:dstrike"@.len() == 9 && "w:dstrike"@[2] == 'd');
    assert("w:vertAlign"@.len() == 11 && "w:vertAlign"@[2] == 'v');
    assert("w:rStyle"@.len() == 8 && "w:rStyle"@[2] == 'r');
    assert("w:br"@.len() == 4 && "w:br"@[2] == 'b');
    assert("w:cr"@.len() == 4 && "w:cr"@[2] == 'c');
    assert("w:tab"@.len() == 5 && "w:tab"@[2] == 't');
    assert("w:sym"@.len() == 5 && "w:sym"@[2] == 's');
    assert("w:t"@.len() == 3 && "w:t"@[2] == 't');
    assert("w:ilvl"@[3] == 'l');
    assert("w:numId"@[3] == 'u');
    assert("w:tbl"@[3] == 'b');
    assert("w:tblLook"@[3] == 'b');
    assert("w:tr"@[3] == 'r');
    assert("w:tblHeader"@[3] == 'b');
    assert("w:tc"@[3] == 'c');
    assert("w:pStyle"@[3] == 'S');
    assert("w:hyperlink"@[3] == 'y');
    assert("w:rFonts"@[3] == 'F');
    assert("w:bCs"@[3] == 'C');
    assert("w:iCs"@[3] == 'C');
    assert("w:strike"@[3] == 't');
    assert("w:dstrike"@[3] == 's');
    assert("w:vertAlign"@[3] == 'e');
    assert("w:rStyle"@[3] == 'S');
    assert("w:br"@[3] == 'r');
    assert("w:cr"@[3] == 'r');
    assert("w:tab"@[3] == 'a');
    assert("w:sym"@[3] == 'y');
}

/// A line break or carriage return adds to the current run and changes
/// nothing else: inside code (a preformatted paragraph or a monospace run)
/// it is a newline, kept verbatim; elsewhere it is `<br>`.
pub proof fn law_break_in_run(s: DocState, t: TagView, rels: Map<Seq<char>, Seq<char>>)
    requires
        t.name == "w:br"@ || t.name == "w:cr"@,
    ensures
        open_tag(s, t, rels) == (DocState {
            run: s.run + if s.pre || s.mono {
                seq!['\n']
            } else {
                seq!['<', 'b', 'r', '>']
            },
            ..s
        }),
{
    lemma_tag_names();
    reveal_strlit("\n");
    reveal_strlit("<br>");
    assert("\n"@ =~= seq!['\n']);
    assert("<br>"@ =~= seq!['<', 'b', 'r', '>']);
}

/// A tab adds to the current run and changes nothing else: inside code it is
/// a tab, kept verbatim; elsewhere a single space.
pub proof fn law_tab_in_run(s: DocState, t: TagView, rels: Map<Seq<char>, Seq<char>>)
    requires
        t.name == "w:tab"@,
    ensures
        open_tag(s, t, rels) == (DocState {
            run: s.run + if s.pre || s.mono {
                seq!['\t']
            } else {
                seq![' ']
            },
            ..s
        }),
{
    lemma_tag_names();
    reveal_strlit("\t");
    reveal_strlit(" ");
    assert("\t"@ =~= seq!['\t']);
    assert(" "@ =~= seq![' ']);
}

/// Every row of a table reaches it, in order: closing a row appends that
/// row's markup to the table built so far, after the `<thead>` that the
/// header row opens or the `<tbody>` that the first body row opens, and
/// starts an empty row.
pub proof fn law_every_row_reaches_the_table(s: DocState)
    ensures
        ({
            let r = close_tag(s, "w:tr"@);
            let header = s.row_header && !s.first_row_seen;
            let row = "<tr>\n"@ + s.row + "</tr>\n"@;
            &&& r.table == s.table + (if header {
                "<thead>\n"@
            } else if !s.tbody_open {
                "<tbody>\n"@
            } else {
                seq![]
            }) + row + (if header {
                "</thead>\n"@
            } else {
                seq![]
            })
            &&& r.row.len() == 0
            &&& r.first_row_seen
            &&& r.html == s.html
        }),
{
    lemma_tag_names();
    let header = s.row_header && !s.first_row_seen;
    let row = "<tr>\n"@ + s.row + "</tr>\n"@;
    let r = close_tag(s, "w:tr"@);
    if header {
        assert(r.table =~= s.table + "<thead>\n"@ + row + "</thead>\n"@);
    } else if !s.tbody_open {
        assert(r.table =~= s.table + "<tbody>\n"@ + row + Seq::<char>::empty());
    } else {
        assert(r.table =~= s.table + Seq::<char>::empty() + row + Seq::<char>::empty());
    }
}

/// Attributes other than a relationship id and a bookmark anchor do not
/// change where a hyperlink points.
pub proof fn law_other_link_attributes_are_ignored(
    attrs: Seq<crate::xml::AttrView>,
    a: crate::xml::AttrView,
    rels: Map<Seq<char>, Seq<char>>,
)
    requires
        a.key != "r:id"@,
        a.key != "id"@,
        a.key != "w:anchor"@,
        a.key != "anchor"@,
    ensures
        crate::convert::hyperlink_target(attrs.push(a), rels) == crate::convert::hyperlink_target(
            attrs,
            rels,
        ),
{
    assert(attrs.push(a).drop_last() =~= attrs);
    assert(attrs.push(a).last() == a);
}

/// Every number format but `bullet` and `none` makes a numbered list: a
/// `w:numFmt` inside an abstract numbering records `ol` for the current
/// level when its value is any other format (decimal, letters, roman
/// numerals, ...), and `ul` for those two.
pub proof fn law_number_formats(
    st: crate::tables::NumberingScan,
    t: TagView,
    abstract_id: Seq<char>,
    format: Seq<char>,
)
    requires
        t.name == "w:numFmt"@,
        st.cur_abstract == Some(abstract_id),
        crate::xml::attr_lookup(t.attrs, "w:val"@) == Some(format),
    ensures
        crate::tables::numbering_open(st, t).abstracts.contains_key(abstract_id),
        crate::tables::numbering_open(st, t).abstracts[abstract_id].contains_key(st.cur_lvl),
        crate::tables::numbering_open(st, t).abstracts[abstract_id][st.cur_lvl] == if format
            == "bullet"@ || format == "none"@ {
            ListTag::Ul
        } else {
            ListTag::Ol
        },
{
    reveal_strlit("w:numFmt");
    reveal_strlit("w:abstractNum");
    reveal_strlit("w:lvl");
    assert("w:numFmt"@.len() == 8 && "w:abstractNum"@.len() == 13 && "w:lvl"@.len() == 5);
}

/// The state after reading `events` from `s`, in order.
pub open spec fn doc_steps(s: DocState, events: Seq<EventView>, rels: Map<Seq<char>, Seq<char>>) -> DocState
    decreases events.len(),
{
    if events.len() == 0 {
        s
    } else {
        doc_steps(doc_step(s, events[0], rels), events.drop_first(), rels)
    }
}

/// A start tag without attributes.
pub open spec fn bare_start(name: Seq<char>) -> EventView {
    EventView::Start(TagView { name, attrs: seq![] })
}

/// The events of a paragraph with no properties holding one plain run of
/// text `x`.
pub open spec fn plain_paragraph(x: Seq<char>) -> Seq<EventView> {
    seq![
        bare_start("w:p"@),
        bare_start("w:r"@),
        bare_start("w:t"@),
        EventView::Text(x),
        EventView::End("w:t"@),
        EventView::End("w:r"@),
        EventView::End("w:p"@),
    ]
}

/// ASCII letters and digits.
pub open spec fn is_ascii_alphanumeric(c: char) -> bool {
    ('a' <= c <= 'z') || ('A' <= c <= 'Z') || ('0' <= c <= '9')
}

proof fn lemma_plain_text_escapes_to_itself(x: Seq<char>)
    requires
        forall|i: int| 0 <= i < x.len() ==> is_ascii_alphanumeric(#[trigger] x[i]),
    ensures
        crate::escape::escaped(x, false) == x,
    decreases x.len(),
{
    if x.len() > 0 {
        assert(forall|i: int|
            0 <= i < x.drop_last().len() ==> is_ascii_alphanumeric(#[trigger] x.drop_last()[i]))
            by {
            assert forall|i: int| 0 <= i < x.drop_last().len() implies is_ascii_alphanumeric(
                #[trigger] x.drop_last()[i],
            ) by {
                assert(x.drop_last()[i] == x[i]);
            }
        }
        lemma_plain_text_escapes_to_itself(x.drop_last());
        assert(is_ascii_alphanumeric(x[x.len() - 1]));
        assert(x.drop_last() + seq![x.last()] =~= x);
    }
}

proof fn lemma_step_open_paragraph(s: DocState, rels: Map<Seq<char>, Seq<char>>)
    ensures
        doc_step(s, bare_start("w:p"@), rels) == crate::convert::opened_paragraph(s),
{
    lemma_tag_names();
}

proof fn lemma_step_open_run(s: DocState, rels: Map<Seq<char>, Seq<char>>)
    ensures
        doc_step(s, bare_start("w:r"@), rels) == crate::convert::opened_run(s),
{
    lemma_tag_names();
}

proof fn lemma_step_open_text(s: DocState, rels: Map<Seq<char>, Seq<char>>)
    ensures
        doc_step(s, bare_start("w:t"@), rels) == crate::convert::with_in_text(s, true),
{
    lemma_tag_names();
}

proof fn lemma_step_close_text(s: DocState, rels: Map<Seq<char>, Seq<char>>)
    ensures
        doc_step(s, EventView::End("w:t"@), rels) == crate::convert::with_in_text(s, false),
{
    lemma_tag_names();
}

proof fn lemma_step_close_run(s: DocState, rels: Map<Seq<char>, Seq<char>>)
    ensures
        doc_step(s, EventView::End("w:r"@), rels) == crate::convert::closed_run(s),
{
    lemma_tag_names();
}

proof fn lemma_step_close_paragraph(s: DocState, rels: Map<Seq<char>, Seq<char>>)
    ensures
        doc_step(s, EventView::End("w:p"@), rels) == crate::convert::closed_paragraph(s),
{
    lemma_tag_names();
}

proof fn lemma_plain_paragraph_steps(s: DocState, x: Seq<char>, rels: Map<Seq<char>, Seq<char>>)
    ensures
        doc_steps(s, plain_paragraph(x), rels) == crate::convert::closed_paragraph(
            crate::convert::closed_run(
                crate::convert::with_in_text(
                    crate::convert::text_step(
                        crate::convert::with_in_text(
                            crate::convert::opened_run(crate::convert::opened_paragraph(s)),
                            true,
                        ),
                        x,
                    ),
                    false,
                ),
            ),
        ),
{
    let es = plain_paragraph(x);
    let e = Seq::<EventView>::empty();
    let s1 = crate::convert::opened_paragraph(s);
    let s2 = crate::convert::opened_run(s1);
    let s3 = crate::convert::with_in_text(s2, true);
    let s4 = crate::convert::text_step(s3, x);
    let s5 = crate::convert::with_in_text(s4, false);
    let s6 = crate::convert::closed_run(s5);
    let s7 = crate::convert::closed_paragraph(s6);
    lemma_step_open_paragraph(s, rels);
    lemma_step_open_run(s1, rels);
    lemma_step_open_text(s2, rels);
    assert(doc_step(s3, EventView::Text(x), rels) == s4);
    lemma_step_close_text(s4, rels);
    lemma_step_close_run(s5, rels);
    lemma_step_close_paragraph(s6, rels);
    let t1 = es.drop_first();
    let t2 = t1.drop_first();
    let t3 = t2.drop_first();
    let t4 = t3.drop_first();
    let t5 = t4.drop_first();
    let t6 = t5.drop_first();
    let t7 = t6.drop_first();
    assert(es[0] == bare_start("w:p"@) && t1[0] == bare_start("w:r"@));
    assert(t2[0] == bare_start("w:t"@) && t3[0] == EventView::Text(x));
    assert(t4[0] == EventView::End("w:t"@) && t5[0] == EventView::End("w:r"@));
    assert(t6[0] == EventView::End("w:p"@) && t7 =~= e);
    assert(doc_steps(s6, t6, rels) == doc_steps(s7, t7, rels));
    assert(doc_steps(s5, t5, rels) == doc_steps(s6, t6, rels));
    assert(doc_steps(s4, t4, rels) == doc_steps(s5, t5, rels));
    assert(doc_steps(s3, t3, rels) == doc_steps(s4, t4, rels));
    assert(doc_steps(s2, t2, rels) == doc_steps(s3, t3, rels));
    assert(doc_steps(s1, t1, rels) == doc_steps(s2, t2, rels));
    assert(doc_steps(s, es, rels) == doc_steps(s1, t1, rels));
}

/// A paragraph without a style is an ordinary `<p>`, whatever came before
/// it: outside tables and hyperlinks, a paragraph with no properties holding
/// one plain run of text closes the open lists and adds `<p>`, the text and
/// `</p>` followed by a blank line. (The heading level, code state and list
/// numbering of earlier paragraphs do not carry over.)
pub proof fn law_unstyled_paragraph_is_p(s: DocState, x: Seq<char>, rels: Map<Seq<char>, Seq<char>>)
    requires
        !s.in_table,
        s.href is None,
        x.len() > 0,
        forall|i: int| 0 <= i < x.len() ==> is_ascii_alphanumeric(#[trigger] x[i]),
    ensures
        doc_steps(s, plain_paragraph(x), rels).html == flushed(s).html + "<p>"@ + x + "</p>\n\n"@,
        doc_steps(s, plain_paragraph(x), rels).list_stack.len() == 0,
{
    lemma_plain_paragraph_steps(s, x, rels);
    let s1 = crate::convert::opened_paragraph(s);
    let s2 = crate::convert::opened_run(s1);
    let s3 = crate::convert::with_in_text(s2, true);
    let s4 = crate::convert::text_step(s3, x);
    let s5 = crate::convert::with_in_text(s4, false);
    let s6 = crate::convert::closed_run(s5);
    lemma_plain_text_escapes_to_itself(x);
    assert(s4.run == x);
    assert(!crate::text::is_blank(x)) by {
        assert(!crate::text::is_white_space(x[0]));
    }
    assert(crate::convert::run_markup(s5) == x);
    assert(s6.paragraph == x);
    assert(!s6.mono_only && s6.heading == 0 && !s6.pre && !s6.in_table && s6.num_id is None);
    assert(s6.html == s.html && s6.list_stack == s.list_stack);
    assert(!crate::convert::is_code_paragraph(s6));
    let s0 = crate::convert::without_paragraph(s6);
    assert(flushed(s0).html == flushed(s).html);
    reveal_strlit("p");
    reveal_strlit("<");
    reveal_strlit(">");
    reveal_strlit("</");
    reveal_strlit("<p>");
    reveal_strlit("</p>\n\n");
    reveal_strlit("\n\n");
    assert(crate::convert::block_markup(0, x) =~= "<p>"@ + x + "</p>\n\n"@);
    let s7 = crate::convert::closed_paragraph(s6);
    assert(s7.html =~= flushed(s).html + "<p>"@ + x + "</p>\n\n"@);
}

} // verus!
