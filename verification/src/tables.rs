//! The two side tables of a `.docx`: hyperlink relationships
//! (`word/_rels/document.xml.rels`) and list numbering
//! (`word/numbering.xml`).
use vstd::prelude::*;

use crate::assoc::{
    alist_to_map, find_key, has_key, last_key_at, lemma_alist_dom, lemma_alist_finite,
    lemma_alist_last, lemma_alist_map_values, lemma_alist_update, map_pair_values,
};
use crate::text::{chars_eq_str, copy_chars, parse_u8, parse_unsigned};
use crate::xml::{
    attr_lookup, attr_value, read_xml_events, xml_events, AttrView, EventView, TagView, XmlEvent,
    XmlTag,
};

verus! {

/// The tag of a start or empty-element event.
pub open spec fn event_tag(e: EventView) -> Option<TagView> {
    match e {
        EventView::Start(t) => Some(t),
        EventView::Empty(t) => Some(t),
        _ => None,
    }
}

// ---------------------------------------------------------------------------
// Relationships
// ---------------------------------------------------------------------------

/// Relationship id -> target (for hyperlinks, the URL).
pub struct Relationships {
    pub entries: Vec<(Vec<char>, Vec<char>)>,
}

pub open spec fn text_pairs(s: Seq<(Vec<char>, Vec<char>)>) -> Seq<(Seq<char>, Seq<char>)> {
    s.map_values(|e: (Vec<char>, Vec<char>)| (e.0@, e.1@))
}

impl View for Relationships {
    type V = Map<Seq<char>, Seq<char>>;

    closed spec fn view(&self) -> Map<Seq<char>, Seq<char>> {
        alist_to_map(text_pairs(self.entries@))
    }
}

impl Relationships {
    /// No relationships.
    pub fn new() -> (r: Relationships)
        ensures
            r@ == Map::<Seq<char>, Seq<char>>::empty(),
    {
        Relationships { entries: Vec::new() }
    }

    /// Records `target` for `id`, replacing what `id` had.
    pub fn insert(&mut self, id: Vec<char>, target: Vec<char>)
        ensures
            final(self)@ == old(self)@.insert(id@, target@),
    {
        let ghost before = self.entries@;
        self.entries.push((id, target));
        assert(text_pairs(self.entries@).drop_last() == text_pairs(before));
    }

    /// The target recorded for `id`.
    pub fn get(&self, id: &Vec<char>) -> (r: Option<Vec<char>>)
        ensures
            r matches Some(t) ==> self@.contains_key(id@) && self@[id@] == t@,
            r is None ==> !self@.contains_key(id@),
    {
        match find_key(&self.entries, id) {
            Some(i) => {
                proof {
                    assert(last_key_at(text_pairs(self.entries@), id@, i as int));
                    lemma_alist_last(text_pairs(self.entries@), id@, i as int);
                }
                Some(copy_chars(&self.entries[i].1))
            },
            None => {
                proof {
                    lemma_alist_dom(text_pairs(self.entries@), id@);
                    assert(!has_key(text_pairs(self.entries@), id@));
                }
                None
            },
        }
    }
}

/// The `Id` and `Target` of a `Relationship` element (the last of each;
/// empty where missing).
pub open spec fn relationship_fields(attrs: Seq<AttrView>) -> (Seq<char>, Seq<char>)
    decreases attrs.len(),
{
    if attrs.len() == 0 {
        (seq![], seq![])
    } else {
        let (id, target) = relationship_fields(attrs.drop_last());
        let a = attrs.last();
        if a.key == "Id"@ {
            (a.value, target)
        } else if a.key == "Target"@ {
            (id, a.value)
        } else {
            (id, target)
        }
    }
}

/// The relationships after one more event: a `Relationship` element with a
/// non-empty id records its target.
pub open spec fn relationships_step(m: Map<Seq<char>, Seq<char>>, e: EventView) -> Map<
    Seq<char>,
    Seq<char>,
> {
    match event_tag(e) {
        Some(t) => if t.name == "Relationship"@ && relationship_fields(t.attrs).0.len() > 0 {
            m.insert(relationship_fields(t.attrs).0, relationship_fields(t.attrs).1)
        } else {
            m
        },
        None => m,
    }
}

/// The relationships that a stream of events records.
pub open spec fn relationships_of(events: Seq<EventView>) -> Map<Seq<char>, Seq<char>>
    decreases events.len(),
{
    if events.len() == 0 {
        Map::empty()
    } else {
        relationships_step(relationships_of(events.drop_last()), events.last())
    }
}

fn relationship_fields_exec(tag: &XmlTag) -> (r: (Vec<char>, Vec<char>))
    ensures
        (r.0@, r.1@) == relationship_fields(tag@.attrs),
{
    let mut id: Vec<char> = Vec::new();
    let mut target: Vec<char> = Vec::new();
    let attrs = &tag.attrs;
    let mut i: usize = 0;
    while i < attrs.len()
        invariant
            i <= attrs.len(),
            attrs.deep_view() == tag@.attrs,
            (id@, target@) == relationship_fields(attrs.deep_view().take(i as int)),
        decreases attrs.len() - i,
    {
        assert(attrs.deep_view().take(i + 1).drop_last() == attrs.deep_view().take(i as int));
        assert(attrs.deep_view().take(i + 1).last() == attrs@[i as int]@);
        if chars_eq_str(&attrs[i].key, "Id") {
            id = copy_chars(&attrs[i].value);
        } else if chars_eq_str(&attrs[i].key, "Target") {
            target = copy_chars(&attrs[i].value);
        }
        i += 1;
    }
    assert(attrs.deep_view().take(attrs.len() as int) == attrs.deep_view());
    (id, target)
}

/// The relationships recorded by a stream of events.
pub fn relationships_from_events(events: &Vec<XmlEvent>) -> (r: Relationships)
    ensures
        r@ == relationships_of(events.deep_view()),
{
    let mut rels = Relationships::new();
    let mut i: usize = 0;
    while i < events.len()
        invariant
            i <= events.len(),
            rels@ == relationships_of(events.deep_view().take(i as int)),
        decreases events.len() - i,
    {
        assert(events.deep_view().take(i + 1).drop_last() == events.deep_view().take(i as int));
        assert(events.deep_view().take(i + 1).last() == events@[i as int]@);
        match &events[i] {
            XmlEvent::Start(t) | XmlEvent::Empty(t) => {
                if chars_eq_str(&t.name, "Relationship") {
                    let (id, target) = relationship_fields_exec(t);
                    if id.len() > 0 {
                        rels.insert(id, target);
                    }
                }
            },
            _ => {},
        }
        i += 1;
    }
    assert(events.deep_view().take(events.len() as int) == events.deep_view());
    rels
}

/// `word/_rels/document.xml.rels`: Relationship Id -> Target.
pub fn parse_rels(xml: &str) -> (r: Relationships)
    ensures
        r@ == relationships_of(xml_events(xml@)),
{
    let events = read_xml_events(xml);
    relationships_from_events(&events)
}

// ---------------------------------------------------------------------------
// Numbering
// ---------------------------------------------------------------------------

/// The HTML list element of a list level.
#[derive(Clone, Copy, Debug, PartialEq, Eq, Structural)]
pub enum ListTag {
    /// `<ul>`, a bulleted list.
    Ul,
    /// `<ol>`, a numbered list.
    Ol,
}

impl ListTag {
    /// The element name: "ul" or "ol".
    pub fn name(&self) -> (r: &'static str)
        ensures
            r@ == list_tag_name(*self),
    {
        match self {
            ListTag::Ul => "ul",
            ListTag::Ol => "ol",
        }
    }
}

pub open spec fn list_tag_name(t: ListTag) -> Seq<char> {
    match t {
        ListTag::Ul => "ul"@,
        ListTag::Ol => "ol"@,
    }
}

/// Word numbering id -> list element per indent level.
pub struct Numbering {
    pub entries: Vec<(Vec<char>, Vec<ListTag>)>,
}

pub open spec fn tag_pairs(s: Seq<(Vec<char>, Vec<ListTag>)>) -> Seq<(Seq<char>, Seq<ListTag>)> {
    s.map_values(|e: (Vec<char>, Vec<ListTag>)| (e.0@, e.1@))
}

impl View for Numbering {
    type V = Map<Seq<char>, Seq<ListTag>>;

    closed spec fn view(&self) -> Map<Seq<char>, Seq<ListTag>> {
        alist_to_map(tag_pairs(self.entries@))
    }
}

impl Numbering {
    /// No numbering definitions.
    pub fn new() -> (r: Numbering)
        ensures
            r@ == Map::<Seq<char>, Seq<ListTag>>::empty(),
    {
        Numbering { entries: Vec::new() }
    }

    /// Records the list elements of numbering `id`, replacing what it had.
    pub fn insert(&mut self, id: Vec<char>, tags: Vec<ListTag>)
        ensures
            final(self)@ == old(self)@.insert(id@, tags@),
    {
        let ghost before = self.entries@;
        self.entries.push((id, tags));
        assert(tag_pairs(self.entries@).drop_last() == tag_pairs(before));
    }

    /// The list elements recorded for numbering `id`.
    pub fn get(&self, id: &Vec<char>) -> (r: Option<&Vec<ListTag>>)
        ensures
            r matches Some(t) ==> self@.contains_key(id@) && self@[id@] == t@,
            r is None ==> !self@.contains_key(id@),
    {
        match find_key(&self.entries, id) {
            Some(i) => {
                proof {
                    assert(last_key_at(tag_pairs(self.entries@), id@, i as int));
                    lemma_alist_last(tag_pairs(self.entries@), id@, i as int);
                }
                Some(&self.entries[i].1)
            },
            None => {
                proof {
                    lemma_alist_dom(tag_pairs(self.entries@), id@);
                    assert(!has_key(tag_pairs(self.entries@), id@));
                }
                None
            },
        }
    }
}

/// The list element of a number format: bullets (and no number) make a
/// bulleted list, every other format a numbered one.
pub open spec fn format_tag(format: Seq<char>) -> ListTag {
    if format == "bullet"@ || format == "none"@ {
        ListTag::Ul
    } else {
        ListTag::Ol
    }
}

/// What a scan of `numbering.xml` has collected: abstract numbering id ->
/// (indent level -> list element), numbering id -> abstract numbering id,
/// and the abstract numbering, numbering and level being read.
pub struct NumberingScan {
    pub abstracts: Map<Seq<char>, Map<u8, ListTag>>,
    pub nums: Map<Seq<char>, Seq<char>>,
    pub cur_abstract: Option<Seq<char>>,
    pub cur_num: Option<Seq<char>>,
    pub cur_lvl: u8,
}

pub open spec fn numbering_scan_start() -> NumberingScan {
    NumberingScan {
        abstracts: Map::empty(),
        nums: Map::empty(),
        cur_abstract: None,
        cur_num: None,
        cur_lvl: 0,
    }
}

/// The levels recorded for an abstract numbering (none if unknown).
pub open spec fn levels_of(abstracts: Map<Seq<char>, Map<u8, ListTag>>, id: Seq<char>) -> Map<
    u8,
    ListTag,
> {
    if abstracts.contains_key(id) {
        abstracts[id]
    } else {
        Map::empty()
    }
}

/// A number read from an attribute value, 0 where it is missing or not a
/// number that fits a byte.
pub open spec fn byte_or_zero(v: Option<Seq<char>>) -> u8 {
    match v {
        Some(s) => match parse_unsigned(s, 10, 255) {
            Some(n) => n as u8,
            None => 0,
        },
        None => 0,
    }
}

/// The scan after a start or empty-element tag.
pub open spec fn numbering_open(st: NumberingScan, t: TagView) -> NumberingScan {
    if t.name == "w:abstractNum"@ {
        let cur = attr_lookup(t.attrs, "w:abstractNumId"@);
        NumberingScan {
            cur_abstract: cur,
            abstracts: match cur {
                Some(id) => st.abstracts.insert(id, levels_of(st.abstracts, id)),
                None => st.abstracts,
            },
            ..st
        }
    } else if t.name == "w:lvl"@ {
        NumberingScan { cur_lvl: byte_or_zero(attr_lookup(t.attrs, "w:ilvl"@)), ..st }
    } else if t.name == "w:numFmt"@ {
        match (st.cur_abstract, attr_lookup(t.attrs, "w:val"@)) {
            (Some(aid), Some(val)) => NumberingScan {
                abstracts: st.abstracts.insert(
                    aid,
                    levels_of(st.abstracts, aid).insert(st.cur_lvl, format_tag(val)),
                ),
                ..st
            },
            _ => st,
        }
    } else if t.name == "w:num"@ {
        NumberingScan { cur_num: attr_lookup(t.attrs, "w:numId"@), ..st }
    } else if t.name == "w:abstractNumId"@ {
        match (st.cur_num, attr_lookup(t.attrs, "w:val"@)) {
            (Some(nid), Some(aid)) => NumberingScan { nums: st.nums.insert(nid, aid), ..st },
            _ => st,
        }
    } else {
        st
    }
}

/// The scan after an end tag.
pub open spec fn numbering_close(st: NumberingScan, name: Seq<char>) -> NumberingScan {
    if name == "w:abstractNum"@ {
        NumberingScan { cur_abstract: None, ..st }
    } else if name == "w:num"@ {
        NumberingScan { cur_num: None, ..st }
    } else {
        st
    }
}

pub open spec fn numbering_step(st: NumberingScan, e: EventView) -> NumberingScan {
    match e {
        EventView::Start(t) => numbering_open(st, t),
        EventView::Empty(t) => numbering_open(st, t),
        EventView::End(n) => numbering_close(st, n),
        EventView::Text(_) => st,
    }
}

pub open spec fn numbering_scan(events: Seq<EventView>) -> NumberingScan
    decreases events.len(),
{
    if events.len() == 0 {
        numbering_scan_start()
    } else {
        numbering_step(numbering_scan(events.drop_last()), events.last())
    }
}

/// The highest level recorded (0 if none).
pub open spec fn max_level(levels: Map<u8, ListTag>) -> u8 {
    if exists|k: u8| levels.contains_key(k) {
        choose|k: u8|
            levels.contains_key(k) && forall|j: u8| levels.contains_key(j) ==> j <= k
    } else {
        0
    }
}

/// The list element of every level up to the highest recorded one, bullets
/// where a level has none.
pub open spec fn level_tags(levels: Map<u8, ListTag>) -> Seq<ListTag> {
    Seq::new(
        max_level(levels) as nat + 1,
        |i: int|
            if levels.contains_key(i as u8) {
                levels[i as u8]
            } else {
                ListTag::Ul
            },
    )
}

/// The list elements of abstract numbering `aid` (none if it is unknown).
pub open spec fn abstract_tags(abstracts: Map<Seq<char>, Map<u8, ListTag>>, aid: Seq<char>) -> Seq<
    ListTag,
> {
    if abstracts.contains_key(aid) {
        level_tags(abstracts[aid])
    } else {
        seq![]
    }
}

/// The numbering that a stream of events from `numbering.xml` defines.
pub open spec fn numbering_of(events: Seq<EventView>) -> Map<Seq<char>, Seq<ListTag>> {
    let st = numbering_scan(events);
    st.nums.map_values(|aid: Seq<char>| abstract_tags(st.abstracts, aid))
}

pub open spec fn abstract_pairs(s: Seq<(Vec<char>, Vec<(u8, ListTag)>)>) -> Seq<
    (Seq<char>, Map<u8, ListTag>),
> {
    s.map_values(|e: (Vec<char>, Vec<(u8, ListTag)>)| (e.0@, alist_to_map(e.1@)))
}

pub open spec fn abstracts_view(s: Seq<(Vec<char>, Vec<(u8, ListTag)>)>) -> Map<
    Seq<char>,
    Map<u8, ListTag>,
> {
    alist_to_map(abstract_pairs(s))
}

/// Makes sure abstract numbering `id` is recorded.
fn ensure_abstract(abstracts: &mut Vec<(Vec<char>, Vec<(u8, ListTag)>)>, id: &Vec<char>)
    ensures
        abstracts_view(final(abstracts)@) == abstracts_view(old(abstracts)@).insert(
            id@,
            levels_of(abstracts_view(old(abstracts)@), id@),
        ),
{
    let ghost before = abstracts@;
    match find_key(abstracts, id) {
        Some(i) => {
            proof {
                assert(last_key_at(abstract_pairs(before), id@, i as int));
                lemma_alist_last(abstract_pairs(before), id@, i as int);
                assert(abstracts_view(before) =~= abstracts_view(before).insert(
                    id@,
                    levels_of(abstracts_view(before), id@),
                ));
            }
        },
        None => {
            proof {
                lemma_alist_dom(abstract_pairs(before), id@);
                assert(!has_key(abstract_pairs(before), id@));
            }
            abstracts.push((copy_chars(id), Vec::new()));
            assert(abstract_pairs(abstracts@).drop_last() == abstract_pairs(before));
            assert(alist_to_map(Seq::<(u8, ListTag)>::empty()) == Map::<u8, ListTag>::empty());
        },
    }
}

fn copy_levels(v: &Vec<(u8, ListTag)>) -> (r: Vec<(u8, ListTag)>)
    ensures
        r@ == v@,
{
    let mut r: Vec<(u8, ListTag)> = Vec::new();
    let mut i: usize = 0;
    while i < v.len()
        invariant
            i <= v.len(),
            r@ == v@.take(i as int),
        decreases v.len() - i,
    {
        r.push(v[i]);
        assert(v@.take(i + 1) == v@.take(i as int).push(v@[i as int]));
        i += 1;
    }
    assert(v@.take(v.len() as int) == v@);
    r
}

/// Records `tag` for level `lvl` of abstract numbering `id`.
fn set_level(
    abstracts: &mut Vec<(Vec<char>, Vec<(u8, ListTag)>)>,
    id: &Vec<char>,
    lvl: u8,
    tag: ListTag,
)
    ensures
        abstracts_view(final(abstracts)@) == abstracts_view(old(abstracts)@).insert(
            id@,
            levels_of(abstracts_view(old(abstracts)@), id@).insert(lvl, tag),
        ),
{
    let ghost before = abstracts@;
    match find_key(abstracts, id) {
        Some(i) => {
            let mut levels = copy_levels(&abstracts[i].1);
            levels.push((lvl, tag));
            let key = copy_chars(&abstracts[i].0);
            let ghost new_levels = levels@;
            abstracts.set(i, (key, levels));
            proof {
                assert(last_key_at(abstract_pairs(before), id@, i as int));
                lemma_alist_last(abstract_pairs(before), id@, i as int);
                assert(new_levels.drop_last() == before[i as int].1@);
                assert(alist_to_map(new_levels) == alist_to_map(before[i as int].1@).insert(
                    lvl,
                    tag,
                ));
                assert(abstract_pairs(abstracts@) == abstract_pairs(before).update(
                    i as int,
                    (id@, alist_to_map(new_levels)),
                ));
                lemma_alist_update(
                    abstract_pairs(before),
                    id@,
                    i as int,
                    alist_to_map(new_levels),
                );
            }
        },
        None => {
            proof {
                lemma_alist_dom(abstract_pairs(before), id@);
                assert(!has_key(abstract_pairs(before), id@));
            }
            let mut levels: Vec<(u8, ListTag)> = Vec::new();
            levels.push((lvl, tag));
            proof {
                assert(levels@.drop_last() == Seq::<(u8, ListTag)>::empty());
                assert(alist_to_map(levels@.drop_last()) =~= Map::<u8, ListTag>::empty());
                assert(alist_to_map(levels@) =~= Map::<u8, ListTag>::empty().insert(lvl, tag));
            }
            abstracts.push((copy_chars(id), levels));
            assert(abstract_pairs(abstracts@).drop_last() == abstract_pairs(before));
        },
    }
}

/// The running state of a numbering scan.
struct NumberingReader {
    abstracts: Vec<(Vec<char>, Vec<(u8, ListTag)>)>,
    nums: Relationships,
    cur_abstract: Option<Vec<char>>,
    cur_num: Option<Vec<char>>,
    cur_lvl: u8,
}

impl NumberingReader {
    spec fn view(&self) -> NumberingScan {
        NumberingScan {
            abstracts: abstracts_view(self.abstracts@),
            nums: self.nums@,
            cur_abstract: match self.cur_abstract {
                Some(v) => Some(v@),
                None => None,
            },
            cur_num: match self.cur_num {
                Some(v) => Some(v@),
                None => None,
            },
            cur_lvl: self.cur_lvl,
        }
    }
}

fn opt_chars_view(v: &Option<Vec<char>>) -> (r: Option<Vec<char>>)
    ensures
        match r {
            Some(x) => v matches Some(y) && x@ == y@,
            None => v is None,
        },
{
    match v {
        Some(x) => Some(copy_chars(x)),
        None => None,
    }
}

fn numbering_open_exec(st: &mut NumberingReader, t: &XmlTag)
    ensures
        final(st).view() == numbering_open(old(st).view(), t@),
{
    if chars_eq_str(&t.name, "w:abstractNum") {
        let cur = attr_value(t, "w:abstractNumId");
        match &cur {
            Some(id) => ensure_abstract(&mut st.abstracts, id),
            None => {},
        }
        st.cur_abstract = cur;
    } else if chars_eq_str(&t.name, "w:lvl") {
        st.cur_lvl = match attr_value(t, "w:ilvl") {
            Some(v) => match parse_u8(&v) {
                Some(n) => n,
                None => 0,
            },
            None => 0,
        };
    } else if chars_eq_str(&t.name, "w:numFmt") {
        let val = attr_value(t, "w:val");
        let cur = opt_chars_view(&st.cur_abstract);
        match (cur, val) {
            (Some(aid), Some(val)) => {
                let tag = if chars_eq_str(&val, "bullet") || chars_eq_str(&val, "none") {
                    ListTag::Ul
                } else {
                    ListTag::Ol
                };
                set_level(&mut st.abstracts, &aid, st.cur_lvl, tag);
            },
            _ => {},
        }
    } else if chars_eq_str(&t.name, "w:num") {
        st.cur_num = attr_value(t, "w:numId");
    } else if chars_eq_str(&t.name, "w:abstractNumId") {
        let val = attr_value(t, "w:val");
        let cur = opt_chars_view(&st.cur_num);
        match (cur, val) {
            (Some(nid), Some(aid)) => {
                st.nums.insert(nid, aid);
            },
            _ => {},
        }
    }
}

/// The highest level in a list of level pairs (0 if there is none).
fn max_level_exec(levels: &Vec<(u8, ListTag)>) -> (m: u8)
    ensures
        m == max_level(alist_to_map(levels@)),
{
    let mut m: u8 = 0;
    let mut i: usize = 0;
    while i < levels.len()
        invariant
            i <= levels.len(),
            forall|j: int| 0 <= j < i ==> levels@[j].0 <= m,
            i > 0 ==> exists|j: int| 0 <= j < i && levels@[j].0 == m,
            i == 0 ==> m == 0,
        decreases levels.len() - i,
    {
        if i == 0 || levels[i].0 > m {
            m = levels[i].0;
        }
        i += 1;
    }
    proof {
        let map = alist_to_map(levels@);
        if levels.len() > 0 {
            let j0 = choose|j: int| 0 <= j < levels.len() && levels@[j].0 == m;
            lemma_alist_dom(levels@, m);
            assert(has_key(levels@, m));
            assert(map.contains_key(m));
            assert forall|k: u8| map.contains_key(k) implies k <= m by {
                lemma_alist_dom(levels@, k);
            }
            let c = choose|k: u8| map.contains_key(k) && forall|j: u8| map.contains_key(j) ==> j <= k;
            assert(c <= m && m <= c);
        } else {
            assert forall|k: u8| !map.contains_key(k) by {
                lemma_alist_dom(levels@, k);
            }
        }
    }
    m
}

/// The list element recorded for `lvl` in a list of level pairs (bullets if
/// none).
fn level_tag(levels: &Vec<(u8, ListTag)>, lvl: u8) -> (t: ListTag)
    ensures
        t == (if alist_to_map(levels@).contains_key(lvl) {
            alist_to_map(levels@)[lvl]
        } else {
            ListTag::Ul
        }),
{
    let mut i: usize = levels.len();
    while i > 0
        invariant
            i <= levels.len(),
            forall|j: int| i <= j < levels.len() ==> levels@[j].0 != lvl,
        decreases i,
    {
        if levels[i - 1].0 == lvl {
            proof {
                assert(last_key_at(levels@, lvl, i - 1));
                lemma_alist_last(levels@, lvl, i - 1);
            }
            return levels[i - 1].1;
        }
        i -= 1;
    }
    proof {
        lemma_alist_dom(levels@, lvl);
    }
    ListTag::Ul
}

fn level_tags_exec(levels: &Vec<(u8, ListTag)>) -> (r: Vec<ListTag>)
    ensures
        r@ == level_tags(alist_to_map(levels@)),
{
    let m = max_level_exec(levels);
    let mut r: Vec<ListTag> = Vec::new();
    let mut i: u16 = 0;
    while i <= m as u16
        invariant
            i <= m as u16 + 1,
            m == max_level(alist_to_map(levels@)),
            r@.len() == i,
            forall|j: int| 0 <= j < i ==> r@[j] == level_tags(alist_to_map(levels@))[j],
        decreases m as u16 + 1 - i,
    {
        let t = level_tag(levels, i as u8);
        r.push(t);
        i += 1;
    }
    assert(r@ =~= level_tags(alist_to_map(levels@)));
    r
}

/// The numbering defined by a stream of events from `numbering.xml`.
pub fn numbering_from_events(events: &Vec<XmlEvent>) -> (r: Numbering)
    ensures
        r@ == numbering_of(events.deep_view()),
{
    let mut st = NumberingReader {
        abstracts: Vec::new(),
        nums: Relationships::new(),
        cur_abstract: None,
        cur_num: None,
        cur_lvl: 0,
    };
    assert(abstracts_view(st.abstracts@) == Map::<Seq<char>, Map<u8, ListTag>>::empty());
    let mut i: usize = 0;
    while i < events.len()
        invariant
            i <= events.len(),
            st.view() == numbering_scan(events.deep_view().take(i as int)),
        decreases events.len() - i,
    {
        assert(events.deep_view().take(i + 1).drop_last() == events.deep_view().take(i as int));
        assert(events.deep_view().take(i + 1).last() == events@[i as int]@);
        match &events[i] {
            XmlEvent::Start(t) | XmlEvent::Empty(t) => numbering_open_exec(&mut st, t),
            XmlEvent::End(n) => {
                if chars_eq_str(n, "w:abstractNum") {
                    st.cur_abstract = None;
                } else if chars_eq_str(n, "w:num") {
                    st.cur_num = None;
                }
            },
            XmlEvent::Text(_) => {},
        }
        i += 1;
    }
    assert(events.deep_view().take(events.len() as int) == events.deep_view());
    let ghost scan = st.view();
    let ghost f = |aid: Seq<char>| abstract_tags(scan.abstracts, aid);
    let mut map = Numbering { entries: Vec::new() };
    let nums = &st.nums.entries;
    let mut k: usize = 0;
    assert(tag_pairs(map.entries@) =~= map_pair_values(text_pairs(nums@).take(0), f));
    while k < nums.len()
        invariant
            k <= nums.len(),
            nums@ == st.nums.entries@,
            scan == st.view(),
            f == (|aid: Seq<char>| abstract_tags(scan.abstracts, aid)),
            tag_pairs(map.entries@) == map_pair_values(text_pairs(nums@).take(k as int), f),
        decreases nums.len() - k,
    {
        let aid = &nums[k].1;
        let tags = match find_key(&st.abstracts, aid) {
            Some(j) => {
                proof {
                    assert(last_key_at(abstract_pairs(st.abstracts@), aid@, j as int));
                    lemma_alist_last(abstract_pairs(st.abstracts@), aid@, j as int);
                }
                level_tags_exec(&st.abstracts[j].1)
            },
            None => {
                proof {
                    lemma_alist_dom(abstract_pairs(st.abstracts@), aid@);
                    assert(!has_key(abstract_pairs(st.abstracts@), aid@));
                }
                Vec::new()
            },
        };
        let ghost before = map.entries@;
        map.entries.push((copy_chars(&nums[k].0), tags));
        proof {
            assert(tag_pairs(map.entries@).drop_last() =~= tag_pairs(before));
            assert(tags@ == f(nums@[k as int].1@));
            assert(text_pairs(nums@).take(k + 1) =~= text_pairs(nums@).take(k as int).push(
                (nums@[k as int].0@, nums@[k as int].1@),
            ));
            assert(map_pair_values(text_pairs(nums@).take(k + 1), f) =~= map_pair_values(
                text_pairs(nums@).take(k as int),
                f,
            ).push((nums@[k as int].0@, f(nums@[k as int].1@))));
        }
        assert(tag_pairs(map.entries@) =~= map_pair_values(text_pairs(nums@).take(k + 1), f));
        k += 1;
    }
    proof {
        assert(text_pairs(nums@).take(nums.len() as int) == text_pairs(nums@));
        lemma_alist_map_values(text_pairs(nums@), f);
        assert(map@ =~= numbering_of(events.deep_view()));
    }
    map
}

/// Word's numbering.xml maps numId -> abstractNumId, and each abstract
/// numbering declares a number format per indent level. Turn that into
/// numId -> list elements.
pub fn parse_numbering(xml: &str) -> (r: Numbering)
    ensures
        r@ == numbering_of(xml_events(xml@)),
{
    let events = read_xml_events(xml);
    numbering_from_events(&events)
}

/// The list element of level `level` of numbering `num_id`, falling back to
/// a bulleted list when unspecified.
pub open spec fn list_tag_of(
    numbering: Map<Seq<char>, Seq<ListTag>>,
    num_id: Option<Seq<char>>,
    level: u8,
) -> ListTag {
    match num_id {
        Some(id) => if numbering.contains_key(id) && (level as int) < numbering[id].len() {
            numbering[id][level as int]
        } else {
            ListTag::Ul
        },
        None => ListTag::Ul,
    }
}

/// Tag for a list level, falling back to a bullet list when unspecified.
pub fn list_tag(numbering: &Numbering, num_id: Option<&Vec<char>>, level: u8) -> (r: ListTag)
    ensures
        r == list_tag_of(
            numbering@,
            match num_id {
                Some(v) => Some(v@),
                None => None,
            },
            level,
        ),
{
    match num_id {
        Some(id) => match numbering.get(id) {
            Some(tags) => {
                if (level as usize) < tags.len() {
                    tags[level as usize]
                } else {
                    ListTag::Ul
                }
            },
            None => ListTag::Ul,
        },
        None => ListTag::Ul,
    }
}

} // verus!
