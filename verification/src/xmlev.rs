//! XML event streams, read with quick-xml.
//!
//! The reader's events are turned into plain values: start and empty tags
//! with their qualified names and raw attribute values, end tags, text
//! with its entity and character references decoded, and everything else
//! (comments, declarations, reader errors) as `Other`. The end of the
//! vector is the end of input.

use vstd::prelude::*;
use quick_xml::events::Event;

verus! {

pub struct XmlAttr {
    /// Qualified attribute name, e.g. `w:val`.
    pub key: String,
    /// Raw attribute value.
    pub value: String,
}

pub enum XmlEvent {
    Start(String, Vec<XmlAttr>),
    Empty(String, Vec<XmlAttr>),
    End(String),
    Text(String),
    Other,
}

pub enum EventView {
    Start(Seq<char>, Seq<(Seq<char>, Seq<char>)>),
    Empty(Seq<char>, Seq<(Seq<char>, Seq<char>)>),
    End(Seq<char>),
    Text(Seq<char>),
    Other,
}

pub open spec fn attrs_view(a: Seq<XmlAttr>) -> Seq<(Seq<char>, Seq<char>)> {
    a.map_values(|x: XmlAttr| (x.key@, x.value@))
}

impl View for XmlEvent {
    type V = EventView;

    open spec fn view(&self) -> EventView {
        match self {
            XmlEvent::Start(n, a) => EventView::Start(n@, attrs_view(a@)),
            XmlEvent::Empty(n, a) => EventView::Empty(n@, attrs_view(a@)),
            XmlEvent::End(n) => EventView::End(n@),
            XmlEvent::Text(t) => EventView::Text(t@),
            XmlEvent::Other => EventView::Other,
        }
    }
}

pub open spec fn events_view(v: Seq<XmlEvent>) -> Seq<EventView> {
    v.map_values(|e: XmlEvent| e@)
}

#[verifier::external_type_specification]
#[verifier::external_body]
#[verifier::reject_recursive_types(R)]
pub struct ExXmlReader<R>(quick_xml::Reader<R>);

#[verifier::external_type_specification]
#[verifier::external_body]
pub struct ExBytesStart<'a>(quick_xml::events::BytesStart<'a>);

/// An event as the reader gives it: attributes that quick-xml could not
/// read are `None`.
pub enum RawEvent {
    Start(String, Vec<Option<XmlAttr>>),
    Empty(String, Vec<Option<XmlAttr>>),
    End(String),
    Text(String),
    Other,
}

pub enum RawEventView {
    Start(Seq<char>, Seq<Option<(Seq<char>, Seq<char>)>>),
    Empty(Seq<char>, Seq<Option<(Seq<char>, Seq<char>)>>),
    End(Seq<char>),
    Text(Seq<char>),
    Other,
}

pub open spec fn raw_attrs_view(a: Seq<Option<XmlAttr>>) -> Seq<Option<(Seq<char>, Seq<char>)>> {
    a.map_values(
        |x: Option<XmlAttr>|
            match x {
                Some(v) => Some((v.key@, v.value@)),
                None => None,
            },
    )
}

impl View for RawEvent {
    type V = RawEventView;

    open spec fn view(&self) -> RawEventView {
        match self {
            RawEvent::Start(n, a) => RawEventView::Start(n@, raw_attrs_view(a@)),
            RawEvent::Empty(n, a) => RawEventView::Empty(n@, raw_attrs_view(a@)),
            RawEvent::End(n) => RawEventView::End(n@),
            RawEvent::Text(t) => RawEventView::Text(t@),
            RawEvent::Other => RawEventView::Other,
        }
    }
}

/// The events quick-xml reads from an XML text, up to (not including) the
/// end of input; text is unescaped (`BytesText::unescape`), and kept as
/// read where it cannot be.
pub uninterp spec fn raw_events_of(xml: Seq<char>) -> Seq<RawEventView>;

/// The attributes that could be read, in order (malformed ones skipped).
pub open spec fn clean_attrs(a: Seq<Option<(Seq<char>, Seq<char>)>>) -> Seq<(Seq<char>, Seq<char>)>
    decreases a.len(),
{
    if a.len() == 0 {
        Seq::empty()
    } else {
        clean_attrs(a.drop_last()) + match a.last() {
            Some(x) => seq![x],
            None => Seq::empty(),
        }
    }
}

pub open spec fn clean_event(e: RawEventView) -> EventView {
    match e {
        RawEventView::Start(n, a) => EventView::Start(n, clean_attrs(a)),
        RawEventView::Empty(n, a) => EventView::Empty(n, clean_attrs(a)),
        RawEventView::End(n) => EventView::End(n),
        RawEventView::Text(t) => EventView::Text(t),
        RawEventView::Other => EventView::Other,
    }
}

/// The events of an XML text, with malformed attributes skipped.
pub open spec fn xml_events_of(xml: Seq<char>) -> Seq<EventView> {
    raw_events_of(xml).map_values(|e: RawEventView| clean_event(e))
}

/// The events a reader has yet to yield before the end of input.
pub uninterp spec fn reader_events(r: quick_xml::Reader<&[u8]>) -> Seq<RawEventView>;

/// `quick_xml::Reader::from_str`: a reader positioned before the first event
/// of `xml`.
#[verifier::external_body]
fn xml_reader(xml: &str) -> (r: quick_xml::Reader<&[u8]>)
    ensures
        reader_events(r) == raw_events_of(xml@),
{
    quick_xml::Reader::from_str(xml)
}

/// The name and attributes of a start or empty tag, as `BytesStart::name`
/// and `BytesStart::attributes` give them (`None` for an attribute that
/// could not be read).
#[verifier::external_body]
fn tag_parts(e: &quick_xml::events::BytesStart) -> (String, Vec<Option<XmlAttr>>) {
    let name = String::from_utf8_lossy(e.name().as_ref()).into_owned();
    let attrs = e.attributes().map(|a| match a {
        Ok(a) => Some(XmlAttr {
            key: String::from_utf8_lossy(a.key.as_ref()).into_owned(),
            value: String::from_utf8_lossy(&a.value).into_owned(),
        }),
        Err(_) => None,
    }).collect();
    (name, attrs)
}

/// `quick_xml::Reader::read_event`: the next event, or `None` at the end of
/// input (where the reader stays). Text comes through
/// `BytesText::unescape` (entity and character references decoded), or as
/// read when that fails.
#[verifier::external_body]
fn next_event(reader: &mut quick_xml::Reader<&[u8]>) -> (r: Option<RawEvent>)
    ensures
        reader_events(*old(reader)).len() == 0 ==> r is None && reader_events(*final(reader)).len() == 0,
        reader_events(*old(reader)).len() > 0 ==> {
            &&& r matches Some(e) && e@ == reader_events(*old(reader))[0]
            &&& reader_events(*final(reader)) == reader_events(*old(reader)).drop_first()
        },
{
    match reader.read_event() {
        Ok(Event::Eof) => None,
        Ok(Event::Start(e)) => { let (n, a) = tag_parts(&e); Some(RawEvent::Start(n, a)) },
        Ok(Event::Empty(e)) => { let (n, a) = tag_parts(&e); Some(RawEvent::Empty(n, a)) },
        Ok(Event::End(e)) => Some(RawEvent::End(String::from_utf8_lossy(e.name().as_ref()).into_owned())),
        Ok(Event::Text(t)) => Some(RawEvent::Text(match t.unescape() {
            Ok(u) => u.into_owned(),
            Err(_) => String::from_utf8_lossy(&t).into_owned(),
        })),
        _ => Some(RawEvent::Other),
    }
}

fn clean_attributes(a: Vec<Option<XmlAttr>>) -> (r: Vec<XmlAttr>)
    ensures
        attrs_view(r@) == clean_attrs(raw_attrs_view(a@)),
{
    let ghost av = raw_attrs_view(a@);
    let mut out: Vec<XmlAttr> = Vec::new();
    let mut i: usize = 0;
    while i < a.len()
        invariant
            i <= a@.len(),
            av == raw_attrs_view(a@),
            attrs_view(out@) == clean_attrs(av.take(i as int)),
        decreases a.len() - i,
    {
        let ghost before = out@;
        assert(av.take(i + 1).drop_last() =~= av.take(i as int));
        match &a[i] {
            Some(v) => {
                out.push(XmlAttr { key: v.key.clone(), value: v.value.clone() });
                assert(attrs_view(out@) =~= attrs_view(before) + seq![(v.key@, v.value@)]);
            },
            None => {
                assert(attrs_view(out@) =~= attrs_view(before) + Seq::<(Seq<char>, Seq<char>)>::empty());
            },
        }
        i += 1;
    }
    assert(av.take(a@.len() as int) =~= av);
    out
}

fn clean(e: RawEvent) -> (r: XmlEvent)
    ensures
        r@ == clean_event(e@),
{
    match e {
        RawEvent::Start(n, a) => XmlEvent::Start(n, clean_attributes(a)),
        RawEvent::Empty(n, a) => XmlEvent::Empty(n, clean_attributes(a)),
        RawEvent::End(n) => XmlEvent::End(n),
        RawEvent::Text(t) => XmlEvent::Text(t),
        RawEvent::Other => XmlEvent::Other,
    }
}

/// All events of an XML text, in order.
pub fn xml_events(xml: &str) -> (r: Vec<XmlEvent>)
    ensures
        events_view(r@) == xml_events_of(xml@),
{
    let mut reader = xml_reader(xml);
    let mut out: Vec<XmlEvent> = Vec::new();
    let ghost all = raw_events_of(xml@);
    let ghost n = all.len();
    loop
        invariant
            all == raw_events_of(xml@),
            reader_events(reader) == all.skip(n - reader_events(reader).len()),
            reader_events(reader).len() <= n,
            n == all.len(),
            events_view(out@) == all.take(n - reader_events(reader).len()).map_values(|e: RawEventView| clean_event(e)),
        decreases reader_events(reader).len(),
    {
        let ghost before = reader_events(reader);
        let ghost k = (n - before.len()) as int;
        let ghost prev = out@;
        match next_event(&mut reader) {
            Some(e) => {
                let ghost ev = e@;
                assert(ev == all[k]);
                out.push(clean(e));
                assert(all.take(k + 1) =~= all.take(k).push(all[k]));
                assert(events_view(out@) =~= events_view(prev).push(clean_event(ev)));
                assert(all.take(k + 1).map_values(|e: RawEventView| clean_event(e)) =~= all.take(k).map_values(
                    |e: RawEventView| clean_event(e),
                ).push(clean_event(all[k])));
                assert(reader_events(reader) =~= all.skip(k + 1));
            },
            None => {
                assert(before.len() == 0);
                assert(all.take(n as int) =~= all);
                return out;
            },
        }
    }
}

} // verus!
