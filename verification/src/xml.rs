//! The XML events that the converter reads, and how they are read from a
//! document with quick-xml.
//!
//! quick-xml parses an XML string into a stream of events. What the i-th
//! event of a given input is, is fixed by quick-xml and named here; the
//! converter's own logic works on the plain events below and is verified for
//! every stream of them.
use vstd::prelude::*;

use quick_xml::events::Event;
use quick_xml::Reader;

use crate::text::{chars_eq_str, copy_chars};

verus! {

// ---------------------------------------------------------------------------
// Plain events
// ---------------------------------------------------------------------------

/// One attribute of a tag: its key, its value decoded and unescaped (the raw
/// value where unescaping fails), and its raw value.
pub struct XmlAttr {
    pub key: Vec<char>,
    pub value: Vec<char>,
    pub raw: Vec<char>,
}

pub struct AttrView {
    pub key: Seq<char>,
    pub value: Seq<char>,
    pub raw: Seq<char>,
}

impl View for XmlAttr {
    type V = AttrView;

    open spec fn view(&self) -> AttrView {
        AttrView { key: self.key@, value: self.value@, raw: self.raw@ }
    }
}

impl DeepView for XmlAttr {
    type V = AttrView;

    open spec fn deep_view(&self) -> AttrView {
        self@
    }
}

/// A start or empty-element tag: its name and attributes.
pub struct XmlTag {
    pub name: Vec<char>,
    pub attrs: Vec<XmlAttr>,
}

pub struct TagView {
    pub name: Seq<char>,
    pub attrs: Seq<AttrView>,
}

impl View for XmlTag {
    type V = TagView;

    open spec fn view(&self) -> TagView {
        TagView { name: self.name@, attrs: self.attrs.deep_view() }
    }
}

/// The events the converter reacts to. Comments, declarations, processing
/// instructions, CDATA and doctype are not among them.
pub enum XmlEvent {
    Start(XmlTag),
    Empty(XmlTag),
    End(Vec<char>),
    /// Text content, unescaped.
    Text(Vec<char>),
}

pub enum EventView {
    Start(TagView),
    Empty(TagView),
    End(Seq<char>),
    Text(Seq<char>),
}

impl View for XmlEvent {
    type V = EventView;

    open spec fn view(&self) -> EventView {
        match self {
            XmlEvent::Start(t) => EventView::Start(t@),
            XmlEvent::Empty(t) => EventView::Empty(t@),
            XmlEvent::End(n) => EventView::End(n@),
            XmlEvent::Text(t) => EventView::Text(t@),
        }
    }
}

impl DeepView for XmlEvent {
    type V = EventView;

    open spec fn deep_view(&self) -> EventView {
        self@
    }
}

/// The value of the first attribute with key `key`.
pub open spec fn attr_lookup(attrs: Seq<AttrView>, key: Seq<char>) -> Option<Seq<char>>
    decreases attrs.len(),
{
    if attrs.len() == 0 {
        None
    } else if attrs[0].key == key {
        Some(attrs[0].value)
    } else {
        attr_lookup(attrs.drop_first(), key)
    }
}

/// Collect a single attribute value from an element, if present.
pub fn attr_value(tag: &XmlTag, key: &str) -> (r: Option<Vec<char>>)
    ensures
        r matches Some(v) ==> attr_lookup(tag@.attrs, key@) == Some(v@),
        r is None ==> attr_lookup(tag@.attrs, key@) is None,
{
    let attrs = &tag.attrs;
    let mut i: usize = 0;
    assert(attrs.deep_view().skip(0) == attrs.deep_view());
    while i < attrs.len()
        invariant
            i <= attrs.len(),
            attrs.deep_view().len() == attrs.len(),
            attrs.deep_view() == tag@.attrs,
            attr_lookup(attrs.deep_view(), key@) == attr_lookup(
                attrs.deep_view().skip(i as int),
                key@,
            ),
        decreases attrs.len() - i,
    {
        assert(attrs.deep_view().skip(i as int).drop_first() == attrs.deep_view().skip(i + 1));
        assert(attrs.deep_view().skip(i as int)[0] == attrs@[i as int]@);
        if chars_eq_str(&attrs[i].key, key) {
            let v = copy_chars(&attrs[i].value);
            assert(attrs.deep_view().skip(i as int)[0].value == v@);
            return Some(v);
        }
        i += 1;
    }
    None
}

// ---------------------------------------------------------------------------
// Reading events with quick-xml
// ---------------------------------------------------------------------------

#[verifier::external_type_specification]
#[verifier::external_body]
#[verifier::reject_recursive_types(R)]
pub struct ExXmlReader<R>(Reader<R>);

#[verifier::external_type_specification]
#[verifier::external_body]
pub struct ExXmlEventRaw<'a>(Event<'a>);

/// Which kind of event quick-xml returned.
#[derive(Clone, Copy, PartialEq, Eq, Structural)]
pub enum XmlEventKind {
    Start,
    Empty,
    End,
    Text,
    Eof,
    Error,
    Other,
}

/// The kind of the `index`-th event (counting from 0) that quick-xml's
/// `Reader::read_event` returns for `input`.
pub uninterp spec fn xml_event_kind(input: Seq<char>, index: nat) -> XmlEventKind;

/// The tag name (`BytesStart::name`, `BytesEnd::name`) of the `index`-th
/// event that quick-xml returns for `input`, decoded as UTF-8.
pub uninterp spec fn xml_tag_name(input: Seq<char>, index: nat) -> Seq<char>;

/// The attributes (`BytesStart::attributes`, those that parse) of the
/// `index`-th event that quick-xml returns for `input`.
pub uninterp spec fn xml_tag_attributes(input: Seq<char>, index: nat) -> Seq<AttrView>;

/// The unescaped text (`BytesText::unescape`, empty where that fails) of the
/// `index`-th event that quick-xml returns for `input`.
pub uninterp spec fn xml_text(input: Seq<char>, index: nat) -> Seq<char>;

/// A quick-xml reader over `input` together with how many events it has
/// returned so far, and the last of them.
pub struct XmlCursor<'a> {
    input: &'a str,
    read: usize,
    reader: Reader<&'a [u8]>,
    current: Option<Event<'a>>,
}

/// `Reader::from_str`: a reader at the start of `xml`, which has returned no
/// event yet.
#[verifier::external_body]
fn xml_cursor<'a>(xml: &'a str) -> (c: XmlCursor<'a>)
    ensures
        c.input@ == xml@,
        c.read == 0,
{
    XmlCursor { input: xml, read: 0, reader: Reader::from_str(xml), current: None }
}

/// `Reader::read_event`: returns the kind of the next event of the input
/// (the named event with the cursor's count as index), keeps the event, and
/// counts it.
#[verifier::external_body]
fn xml_advance(c: &mut XmlCursor) -> (k: XmlEventKind)
    requires
        old(c).read < usize::MAX,
    ensures
        final(c).input == old(c).input,
        final(c).read == old(c).read + 1,
        k == xml_event_kind(old(c).input@, old(c).read as nat),
{
    let event = c.reader.read_event();
    c.read += 1;
    let kind = match &event {
        Ok(Event::Start(_)) => XmlEventKind::Start,
        Ok(Event::Empty(_)) => XmlEventKind::Empty,
        Ok(Event::End(_)) => XmlEventKind::End,
        Ok(Event::Text(_)) => XmlEventKind::Text,
        Ok(Event::Eof) => XmlEventKind::Eof,
        Ok(_) => XmlEventKind::Other,
        Err(_) => XmlEventKind::Error,
    };
    c.current = event.ok();
    kind
}

/// `BytesStart::name` / `BytesEnd::name` of the last event, decoded as UTF-8
/// (names are slices of a `str` cut at ASCII delimiters, so nothing is lost).
#[verifier::external_body]
fn xml_current_name(c: &XmlCursor) -> (name: Vec<char>)
    requires
        c.read > 0,
        xml_event_kind(c.input@, (c.read - 1) as nat) == XmlEventKind::Start
            || xml_event_kind(c.input@, (c.read - 1) as nat) == XmlEventKind::Empty
            || xml_event_kind(c.input@, (c.read - 1) as nat) == XmlEventKind::End,
    ensures
        name@ == xml_tag_name(c.input@, (c.read - 1) as nat),
{
    match &c.current {
        Some(Event::Start(e)) | Some(Event::Empty(e)) => String::from_utf8_lossy(
            e.name().as_ref(),
        ).chars().collect(),
        Some(Event::End(e)) => String::from_utf8_lossy(e.name().as_ref()).chars().collect(),
        _ => Vec::new(),
    }
}

/// `BytesStart::attributes` of the last event, the attributes that parse
/// (`flatten`), each with its key, its value from `Attribute::unescape_value`
/// (or, where that fails, the raw value), and its raw value.
#[verifier::external_body]
fn xml_current_attributes(c: &XmlCursor) -> (attrs: Vec<XmlAttr>)
    requires
        c.read > 0,
        xml_event_kind(c.input@, (c.read - 1) as nat) == XmlEventKind::Start
            || xml_event_kind(c.input@, (c.read - 1) as nat) == XmlEventKind::Empty,
    ensures
        attrs.deep_view() == xml_tag_attributes(c.input@, (c.read - 1) as nat),
{
    match &c.current {
        Some(Event::Start(e)) | Some(Event::Empty(e)) => e.attributes().flatten().map(
            |a| XmlAttr {
                key: String::from_utf8_lossy(a.key.as_ref()).chars().collect(),
                value: match a.unescape_value() {
                    Ok(v) => v.chars().collect(),
                    Err(_) => String::from_utf8_lossy(&a.value).chars().collect(),
                },
                raw: String::from_utf8_lossy(&a.value).chars().collect(),
            },
        ).collect(),
        _ => Vec::new(),
    }
}

/// `BytesText::unescape` of the last event, or nothing where it fails.
#[verifier::external_body]
fn xml_current_text(c: &XmlCursor) -> (text: Vec<char>)
    requires
        c.read > 0,
        xml_event_kind(c.input@, (c.read - 1) as nat) == XmlEventKind::Text,
    ensures
        text@ == xml_text(c.input@, (c.read - 1) as nat),
{
    match &c.current {
        Some(Event::Text(t)) => t.unescape().map(|s| s.chars().collect()).unwrap_or_default(),
        _ => Vec::new(),
    }
}

/// The events of `input` from the `index`-th on, reading at most `fuel`
/// more: the stream ends at the end of the input or at a parse error, and
/// events the converter does not react to are passed over.
pub open spec fn xml_stream_from(input: Seq<char>, index: nat, fuel: nat) -> Seq<EventView>
    decreases fuel,
{
    if fuel == 0 {
        seq![]
    } else {
        let rest = xml_stream_from(input, index + 1, (fuel - 1) as nat);
        match xml_event_kind(input, index) {
            XmlEventKind::Start => seq![
                EventView::Start(
                    TagView {
                        name: xml_tag_name(input, index),
                        attrs: xml_tag_attributes(input, index),
                    },
                ),
            ] + rest,
            XmlEventKind::Empty => seq![
                EventView::Empty(
                    TagView {
                        name: xml_tag_name(input, index),
                        attrs: xml_tag_attributes(input, index),
                    },
                ),
            ] + rest,
            XmlEventKind::End => seq![EventView::End(xml_tag_name(input, index))] + rest,
            XmlEventKind::Text => seq![EventView::Text(xml_text(input, index))] + rest,
            XmlEventKind::Other => rest,
            _ => seq![],
        }
    }
}

/// The events of an XML document. Every event that quick-xml returns before
/// the end takes up at least one character of the input, so reading as many
/// events as the input has characters reaches the end.
pub open spec fn xml_events(input: Seq<char>) -> Seq<EventView> {
    xml_stream_from(input, 0, input.len())
}

/// Reads the events of an XML document with quick-xml.
pub fn read_xml_events(xml: &str) -> (events: Vec<XmlEvent>)
    ensures
        events.deep_view() == xml_events(xml@),
{
    let mut c = xml_cursor(xml);
    let n = xml.unicode_len();
    let mut events: Vec<XmlEvent> = Vec::new();
    while c.read < n
        invariant
            c.input@ == xml@,
            c.read <= n,
            n == xml@.len(),
            xml_events(xml@) == events.deep_view() + xml_stream_from(
                xml@,
                c.read as nat,
                (n - c.read) as nat,
            ),
        decreases n - c.read,
    {
        let ghost before = events.deep_view();
        let ghost index = c.read as nat;
        let ghost rest = xml_stream_from(xml@, index + 1, (n - c.read - 1) as nat);
        let kind = xml_advance(&mut c);
        match kind {
            XmlEventKind::Start | XmlEventKind::Empty => {
                let name = xml_current_name(&c);
                let attrs = xml_current_attributes(&c);
                let tag = XmlTag { name, attrs };
                if kind == XmlEventKind::Start {
                    events.push(XmlEvent::Start(tag));
                } else {
                    events.push(XmlEvent::Empty(tag));
                }
                assert(events.deep_view() == before.push(events@.last()@));
            },
            XmlEventKind::End => {
                let name = xml_current_name(&c);
                events.push(XmlEvent::End(name));
                assert(events.deep_view() == before.push(events@.last()@));
            },
            XmlEventKind::Text => {
                let text = xml_current_text(&c);
                events.push(XmlEvent::Text(text));
                assert(events.deep_view() == before.push(events@.last()@));
            },
            XmlEventKind::Other => {},
            _ => {
                assert(xml_stream_from(xml@, index, (n - index) as nat) == Seq::<EventView>::empty());
                assert(events.deep_view() == events.deep_view() + Seq::<EventView>::empty());
                return events;
            },
        }
    }
    assert(events.deep_view() == events.deep_view() + Seq::<EventView>::empty());
    events
}

} // verus!
