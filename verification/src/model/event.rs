//! The events that an XML document is read as, and where they come from.
//!
//! The XML itself is read by the `xml` crate. This file holds all that is
//! taken on trust from it: the events that a document gives are named
//! [`document_events`], and nothing is stated of what they are.
use vstd::prelude::*;
use xml::reader::{EventReader, XmlEvent};
use crate::lift::{view_of, views};

verus! {

/// An attribute of a start tag: its local name and its value.
#[derive(Debug)]
pub struct Attribute {
    pub name: String,
    pub value: String,
}

/// An [`Attribute`] as two sequences of characters.
pub struct AttributeView {
    pub name: Seq<char>,
    pub value: Seq<char>,
}

impl View for Attribute {
    type V = AttributeView;

    open spec fn view(&self) -> AttributeView {
        AttributeView { name: self.name@, value: self.value@ }
    }
}

impl Attribute {
    pub fn new(name: String, value: String) -> (a: Attribute)
        ensures
            a.name == name,
            a.value == value,
    {
        Attribute { name, value }
    }
}

/// One step of a document. Names are local names, without prefix.
#[derive(Debug)]
pub enum Event {
    /// A start tag, or the first half of an empty-element tag.
    Start { name: String, attributes: Vec<Attribute> },
    /// An end tag, or the second half of an empty-element tag.
    End { name: String },
    /// Text between tags, with its entities resolved.
    Characters(String),
    /// Anything else: the declaration, white space, a comment, a CDATA
    /// section, a processing instruction.
    Other,
}

/// An [`Event`] with its texts as sequences of characters.
pub enum EventView {
    Start { name: Seq<char>, attributes: Seq<AttributeView> },
    End { name: Seq<char> },
    Characters(Seq<char>),
    Other,
}

impl View for Event {
    type V = EventView;

    open spec fn view(&self) -> EventView {
        match *self {
            Event::Start { name, attributes } => EventView::Start {
                name: name@,
                attributes: views(attributes@),
            },
            Event::End { name } => EventView::End { name: name@ },
            Event::Characters(text) => EventView::Characters(text@),
            Event::Other => EventView::Other,
        }
    }
}

/// A reader of the `xml` crate over the bytes of a document in memory.
/// Nothing in it is open to proof: what it holds is spoken of only as the
/// events that it has yet to give, [`pending_events`].
#[verifier::external_body]
pub struct XmlSource<'a> {
    reader: EventReader<&'a [u8]>,
}

/// The events that the `xml` crate reads from a document, from its first
/// byte up to, and without, the end of the document or the first error.
pub uninterp spec fn document_events(bytes: Seq<u8>) -> Seq<EventView>;

/// The events that a source has yet to give, the next one first, up to,
/// and without, the end of the document or the first error.
pub uninterp spec fn pending_events(source: XmlSource<'_>) -> Seq<EventView>;

/// Calls `EventReader::new` of the `xml` crate, which reads nothing yet: the
/// new source has all the events of the document to give.
#[verifier::external_body]
pub(crate) fn open_source<'a>(bytes: &'a [u8]) -> (source: XmlSource<'a>)
    ensures
        pending_events(source) == document_events(bytes@),
{
    XmlSource { reader: EventReader::new(bytes) }
}

/// Calls `EventReader::next` of the `xml` crate and hands its event over:
/// the first of the pending events, which is then no longer pending. At the
/// end of the document, and from the first error on, `next` gives that same
/// answer at every call; here that is `None`, with no event pending.
#[verifier::external_body]
pub(crate) fn next_from(source: &mut XmlSource<'_>) -> (event: Option<Event>)
    ensures
        pending_events(*old(source)).len() == 0 ==> event is None && pending_events(*final(source))
            == pending_events(*old(source)),
        pending_events(*old(source)).len() > 0 ==> view_of(event) == Some(
            pending_events(*old(source))[0],
        ) && pending_events(*final(source)) == pending_events(*old(source)).skip(1),
{
    match source.reader.next() {
        Ok(XmlEvent::StartElement { name, attributes, .. }) => {
            let given = attributes.into_iter().map(|a| Attribute::new(a.name.local_name, a.value));
            Some(Event::Start { name: name.local_name, attributes: given.collect() })
        },
        Ok(XmlEvent::EndElement { name }) => Some(Event::End { name: name.local_name }),
        Ok(XmlEvent::Characters(text)) => Some(Event::Characters(text)),
        Ok(XmlEvent::EndDocument) => None,
        Ok(_) => Some(Event::Other),
        Err(_) => None,
    }
}

} // verus!
