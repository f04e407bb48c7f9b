//! XML tokenizing through quick-xml, as a finite stream of events.
use vstd::prelude::*;
use quick_xml::events::Event;

use crate::text::{chars_of, matches_at};

verus! {

/// quick-xml's pull reader, held opaque.
#[verifier::external_type_specification]
#[verifier::external_body]
#[verifier::reject_recursive_types(R)]
pub struct ExXmlReader<R>(quick_xml::Reader<R>);

/// One attribute of a start tag, with its raw (not unescaped) value.
#[derive(Debug, Clone)]
pub struct XmlAttribute {
    pub key: String,
    pub value: String,
}

/// One event of the XML tokenizer.
#[derive(Debug, Clone)]
pub enum XmlEvent {
    /// A start tag (not a self-closing one): its qualified name and attributes.
    Start(String, Vec<XmlAttribute>),
    /// An end tag, with its qualified name.
    End(String),
    /// Trimmed, unescaped character data.
    Text(String),
    /// A comment, a declaration, CDATA, a self-closing tag or another event that is not read.
    Other,
    /// The end of the document.
    Eof,
    /// The document is not well-formed at this point.
    Malformed,
}

/// The mathematical value of an `XmlEvent`.
pub enum XmlEventView {
    Start(Seq<char>, Seq<(Seq<char>, Seq<char>)>),
    End(Seq<char>),
    Text(Seq<char>),
    Other,
    Eof,
    Malformed,
}

pub open spec fn attributes_view(attrs: Seq<XmlAttribute>) -> Seq<(Seq<char>, Seq<char>)> {
    Seq::new(attrs.len(), |i: int| (attrs[i].key@, attrs[i].value@))
}

impl View for XmlEvent {
    type V = XmlEventView;

    open spec fn view(&self) -> XmlEventView {
        match self {
            XmlEvent::Start(name, attrs) => XmlEventView::Start(name@, attributes_view(attrs@)),
            XmlEvent::End(name) => XmlEventView::End(name@),
            XmlEvent::Text(t) => XmlEventView::Text(t@),
            XmlEvent::Other => XmlEventView::Other,
            XmlEvent::Eof => XmlEventView::Eof,
            XmlEvent::Malformed => XmlEventView::Malformed,
        }
    }
}

pub open spec fn events_view(evs: Seq<XmlEvent>) -> Seq<XmlEventView> {
    Seq::new(evs.len(), |i: int| evs[i]@)
}

/// An event after which the tokenizer yields nothing more.
pub open spec fn is_terminal(e: XmlEventView) -> bool {
    e is Eof || e is Malformed
}

/// A stream that ends with its one terminal event.
pub open spec fn ends_once(evs: Seq<XmlEventView>) -> bool {
    &&& evs.len() > 0
    &&& is_terminal(evs.last())
    &&& forall|i: int| 0 <= i < evs.len() - 1 ==> !is_terminal(#[trigger] evs[i])
}

/// The events that quick-xml's reader, with text trimming on, yields for a document, up to
/// and including the end of the document or the first error.
pub uninterp spec fn xml_events_of(text: Seq<char>) -> Seq<XmlEventView>;

/// The events that a reader has still to yield, up to and including the terminal one.
pub uninterp spec fn pending_events(reader: quick_xml::Reader<&[u8]>) -> Seq<XmlEventView>;

/// Relies on `quick_xml::Reader::from_str` with `trim_text(true)`: a reader over `s`, which
/// yields its events one by one and ends with `Eof` or an error.
#[verifier::external_body]
fn open_reader(s: &str) -> (r: quick_xml::Reader<&[u8]>)
    ensures
        pending_events(r) == xml_events_of(s@),
        ends_once(pending_events(r)),
{
    let mut reader = quick_xml::Reader::from_str(s);
    reader.config_mut().trim_text(true);
    reader
}

/// Relies on `quick_xml::Reader::read_event`: the next event; names are taken as qualified
/// names, attribute values raw, text unescaped (empty where unescaping fails).
#[verifier::external_body]
fn read_xml_event(reader: &mut quick_xml::Reader<&[u8]>) -> (e: XmlEvent)
    requires
        pending_events(*old(reader)).len() > 0,
    ensures
        e@ == pending_events(*old(reader))[0],
        pending_events(*final(reader)) == pending_events(*old(reader)).drop_first(),
{
    let lossy = |b: &[u8]| String::from_utf8_lossy(b).into_owned();
    match reader.read_event() {
        Ok(Event::Start(e)) => XmlEvent::Start(lossy(e.name().as_ref()), e.attributes().flatten().map(
            |a| XmlAttribute { key: lossy(a.key.as_ref()), value: lossy(&a.value) },
        ).collect()),
        Ok(Event::End(e)) => XmlEvent::End(lossy(e.name().as_ref())),
        Ok(Event::Text(e)) => XmlEvent::Text(e.unescape().map(|t| t.into_owned()).unwrap_or_default()),
        Ok(Event::Eof) => XmlEvent::Eof,
        Ok(_) => XmlEvent::Other,
        Err(_) => XmlEvent::Malformed,
    }
}

/// All events of the document `s`, ending with `Eof` or `Malformed`.
pub fn xml_events(s: &str) -> (r: Vec<XmlEvent>)
    ensures
        events_view(r@) == xml_events_of(s@),
        ends_once(events_view(r@)),
{
    let mut reader = open_reader(s);
    let ghost all = xml_events_of(s@);
    let mut out: Vec<XmlEvent> = Vec::new();
    loop
        invariant
            all == xml_events_of(s@),
            ends_once(all),
            out.len() < all.len(),
            events_view(out@) == all.subrange(0, out.len() as int),
            pending_events(reader) == all.subrange(out.len() as int, all.len() as int),
        decreases all.len() - out.len(),
    {
        let ghost k = out.len() as int;
        assert(pending_events(reader)[0] == all[k]);
        let e = read_xml_event(&mut reader);
        assert(e@ == all[k]);
        let terminal = matches!(e, XmlEvent::Eof) || matches!(e, XmlEvent::Malformed);
        out.push(e);
        assert(events_view(out@) =~= all.subrange(0, out.len() as int));
        if terminal {
            assert(is_terminal(all[k]));
            assert(out.len() == all.len());
            assert(all.subrange(0, out.len() as int) =~= all);
            return out;
        }
        assert(pending_events(reader) =~= all.subrange(out.len() as int, all.len() as int));
    }
}

/// The value of the first attribute named `key`.
pub open spec fn attribute_lookup(attrs: Seq<(Seq<char>, Seq<char>)>, key: Seq<char>) -> Option<
    Seq<char>,
>
    decreases attrs.len(),
{
    if attrs.len() == 0 {
        None
    } else if attrs[0].0 == key {
        Some(attrs[0].1)
    } else {
        attribute_lookup(attrs.drop_first(), key)
    }
}

/// The value of the first attribute named `key`, if the tag has one.
pub fn attribute_value(attrs: &Vec<XmlAttribute>, key: &str) -> (r: Option<String>)
    ensures
        r matches Some(v) ==> attribute_lookup(attributes_view(attrs@), key@) == Some(v@),
        r is None ==> attribute_lookup(attributes_view(attrs@), key@) is None,
{
    let kv = chars_of(key);
    let mut i: usize = 0;
    assert(attributes_view(attrs@).subrange(0, attrs.len() as int) =~= attributes_view(attrs@));
    while i < attrs.len()
        invariant
            i <= attrs.len(),
            kv@ == key@,
            attribute_lookup(attributes_view(attrs@), key@) == attribute_lookup(
                attributes_view(attrs@).subrange(i as int, attrs.len() as int),
                key@,
            ),
        decreases attrs.len() - i,
    {
        let ghost rest = attributes_view(attrs@).subrange(i as int, attrs.len() as int);
        let name = chars_of(attrs[i].key.as_str());
        if name.len() == kv.len() && matches_at(name.as_slice(), kv.as_slice(), 0) {
            assert(name@ =~= name@.subrange(0, kv@.len() as int));
            return Some(attrs[i].value.clone());
        }
        assert(name@ != kv@) by {
            if name@ == kv@ {
                assert(name@ =~= name@.subrange(0, kv@.len() as int));
            }
        }
        assert(rest.drop_first() =~= attributes_view(attrs@).subrange(i + 1, attrs.len() as int));
        i = i + 1;
    }
    assert(attributes_view(attrs@).subrange(i as int, attrs.len() as int).len() == 0);
    None
}

} // verus!
