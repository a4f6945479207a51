//! The boundary to `quick_xml`: a pull reader over an in-memory XML
//! document that hands out each event as plain data.
//!
//! Text is trimmed of surrounding white space, attributes are read
//! without the duplicate-key check, and attribute values and text are
//! unescaped eagerly (each result, success or error, travels with the
//! event).
use quick_xml::events::attributes::AttrError;
use quick_xml::events::{BytesStart, Event};
use quick_xml::Reader;
use std::borrow::Cow;
use crate::xml::XmlEvent::{Eof, Other};
use vstd::prelude::*;

verus! {

#[verifier::external_type_specification]
#[verifier::external_body]
#[verifier::reject_recursive_types(R)]
pub struct ExXmlReader<R>(Reader<R>);

#[verifier::external_type_specification]
#[verifier::external_body]
pub struct ExXmlError(quick_xml::Error);

#[verifier::external_type_specification]
#[verifier::external_body]
pub struct ExAttrError(AttrError);

/// One attribute of a start tag: raw key bytes and the unescaped value.
pub struct XmlAttribute {
    pub key: Vec<u8>,
    pub value: Result<String, quick_xml::Error>,
}

/// A start (or self-closing) tag: raw name bytes and its attributes in
/// document order; an attribute that could not be parsed carries the
/// parser's error.
pub struct XmlElement {
    pub name: Vec<u8>,
    pub attributes: Vec<Result<XmlAttribute, AttrError>>,
}

/// One reader event.
pub enum XmlEvent {
    Start(XmlElement),
    Empty(XmlElement),
    End(Vec<u8>),
    Text(Result<String, quick_xml::Error>),
    Eof,
    Other,
}

pub struct XmlAttributeView {
    pub key: Seq<u8>,
    /// `None` when unescaping failed.
    pub value: Option<Seq<char>>,
}

pub struct XmlElementView {
    pub name: Seq<u8>,
    /// `None` for an attribute that could not be parsed.
    pub attributes: Seq<Option<XmlAttributeView>>,
}

pub enum XmlEventView {
    Start(XmlElementView),
    Empty(XmlElementView),
    End(Seq<u8>),
    /// `None` when unescaping failed.
    Text(Option<Seq<char>>),
    Eof,
    Other,
}

pub open spec fn unescaped_view(r: Result<String, quick_xml::Error>) -> Option<Seq<char>> {
    match r {
        Ok(s) => Some(s@),
        Err(_) => None,
    }
}

impl View for XmlAttribute {
    type V = XmlAttributeView;

    open spec fn view(&self) -> XmlAttributeView {
        XmlAttributeView { key: self.key@, value: unescaped_view(self.value) }
    }
}

pub open spec fn attribute_view(a: Result<XmlAttribute, AttrError>) -> Option<XmlAttributeView> {
    match a {
        Ok(x) => Some(x@),
        Err(_) => None,
    }
}

impl View for XmlElement {
    type V = XmlElementView;

    open spec fn view(&self) -> XmlElementView {
        XmlElementView {
            name: self.name@,
            attributes: self.attributes@.map_values(
                |a: Result<XmlAttribute, AttrError>| attribute_view(a),
            ),
        }
    }
}

impl View for XmlEvent {
    type V = XmlEventView;

    open spec fn view(&self) -> XmlEventView {
        match self {
            XmlEvent::Start(e) => XmlEventView::Start(e@),
            XmlEvent::Empty(e) => XmlEventView::Empty(e@),
            XmlEvent::End(n) => XmlEventView::End(n@),
            XmlEvent::Text(t) => XmlEventView::Text(unescaped_view(*t)),
            XmlEvent::Eof => XmlEventView::Eof,
            XmlEvent::Other => XmlEventView::Other,
        }
    }
}

/// The `k`-th event (counting from 0) that `quick_xml` reports for the
/// document `input` read with text trimming on; `None` when that read
/// fails.
pub uninterp spec fn xml_event_at(input: Seq<u8>, k: nat) -> Option<XmlEventView>;

/// Pull reader over one in-memory document. The ghost fields record
/// the document and how many events have been handed out; only the
/// two trusted items below create or advance it.
pub struct XmlEventReader<'a> {
    reader: Reader<&'a [u8]>,
    buf: Vec<u8>,
    input: Ghost<Seq<u8>>,
    count: Ghost<nat>,
    stopped: Ghost<bool>,
}

impl<'a> XmlEventReader<'a> {
    /// The document being read.
    pub closed spec fn input(&self) -> Seq<u8> {
        self.input@
    }

    /// Number of events handed out so far.
    pub closed spec fn count(&self) -> nat {
        self.count@
    }

    /// An error or the end of the document has been reported.
    pub closed spec fn stopped(&self) -> bool {
        self.stopped@
    }

    /// Calls `quick_xml::Reader::from_reader` on the document and turns
    /// text trimming on (`Config::trim_text(true)`); claims only that
    /// the new reader stands at the first event of `input`.
    #[verifier::external_body]
    pub(crate) fn new(input: &'a [u8]) -> (r: Self)
        ensures
            r.input() == input@,
            r.count() == 0,
            !r.stopped(),
    {
        let mut reader = Reader::from_reader(input);
        reader.config_mut().trim_text(true);
        XmlEventReader {
            reader,
            buf: Vec::new(),
            input: Ghost(input@),
            count: Ghost(0),
            stopped: Ghost(false),
        }
    }

    /// Calls `quick_xml::Reader::read_event_into` and converts the event
    /// to plain data (tag names with `BytesStart::name`/`BytesEnd::name`,
    /// attributes with `BytesStart::attributes` without duplicate checks
    /// and `Attribute::unescape_value`, text with `BytesText::unescape`).
    /// Claims: the event is the `count()`-th event of the document; a
    /// failed read or the end of the document stops the reader; and
    /// once as many events have been read as the document has bytes,
    /// the next read reports the end or an error (every event other
    /// than the end consumes at least one byte).
    #[verifier::external_body]
    fn read_event_into_buffer(&mut self) -> (r: Result<XmlEvent, quick_xml::Error>)
        requires
            !old(self).stopped(),
        ensures
            final(self).input() == old(self).input(),
            r is Err ==> xml_event_at(old(self).input(), old(self).count()) is None
                && final(self).stopped(),
            r matches Ok(ev) ==> xml_event_at(old(self).input(), old(self).count()) == Some(ev@)
                && final(self).stopped() == (ev is Eof) && final(self).count() == old(self).count()
                + 1,
            old(self).count() >= old(self).input().len() ==> (r is Err || r matches Ok(
                XmlEvent::Eof,
            )),
    {
        let el = |e: BytesStart| XmlElement { name: e.name().0.to_vec(), attributes: e.attributes().with_checks(false).map(|a| a.map(|a| XmlAttribute { key: a.key.0.to_vec(), value: a.unescape_value().map(Cow::into_owned) })).collect() };
        Ok(match self.reader.read_event_into(&mut self.buf)? {
            Event::Start(e) => XmlEvent::Start(el(e)),
            Event::Empty(e) => XmlEvent::Empty(el(e)),
            Event::End(e) => XmlEvent::End(e.name().0.to_vec()),
            Event::Text(t) => XmlEvent::Text(t.unescape().map(Cow::into_owned)),
            Event::Eof => Eof,
            _ => Other,
        })
    }

    /// Read the next event, reusing the event buffer: the bytes of the
    /// previous event are dropped first.
    pub(crate) fn read_event(&mut self) -> (r: Result<XmlEvent, quick_xml::Error>)
        requires
            !old(self).stopped(),
        ensures
            final(self).input() == old(self).input(),
            r is Err ==> xml_event_at(old(self).input(), old(self).count()) is None
                && final(self).stopped(),
            r matches Ok(ev) ==> xml_event_at(old(self).input(), old(self).count()) == Some(ev@)
                && final(self).stopped() == (ev is Eof) && final(self).count() == old(self).count()
                + 1,
            old(self).count() >= old(self).input().len() ==> (r is Err || r matches Ok(
                XmlEvent::Eof,
            )),
    {
        self.buf.clear();
        self.read_event_into_buffer()
    }
}

/// `AttrError` is `Clone`; nothing is claimed of the copy.
pub assume_specification[ <AttrError as Clone>::clone ](e: &AttrError) -> AttrError;

/// `quick_xml::Error` is `Clone`; nothing is claimed of the copy.
pub assume_specification[ <quick_xml::Error as Clone>::clone ](e: &quick_xml::Error) -> quick_xml::Error;

} // verus!
