//! Parse events, as the record boundary engine consumes them.
//!
//! The external tokenizer is reduced to this closed set of events; the
//! engine and the extraction strategies are verified against it.  An event
//! owns its bytes: it is transient and never persisted, the engine interns
//! what it needs into the shared read buffer.

use vstd::prelude::*;
use crate::buffer::FieldView;

verus! {

/// One attribute of an element-open event, as handed over by the tokenizer.
pub struct AttrPair {
    pub key: Vec<u8>,
    pub value: Vec<u8>,
}

/// Mathematical image of an `AttrPair`.
pub struct AttrPairV {
    pub key: Seq<u8>,
    pub value: Seq<u8>,
}

impl View for AttrPair {
    type V = AttrPairV;

    open spec fn view(&self) -> AttrPairV {
        AttrPairV { key: self.key@, value: self.value@ }
    }
}

/// An element-open event: the element name and its attributes in document
/// order.
pub struct OpenEvent {
    pub name: Vec<u8>,
    pub attrs: Vec<AttrPair>,
}

/// One parse event of the XML document.
pub enum XmlEvent {
    /// `<name key="value" ...>`; empty elements arrive expanded into an
    /// open/close pair.
    Open(OpenEvent),
    /// Character data between tags, in its escaped source form.
    Text(Vec<u8>),
    /// `</name>`.
    Close,
    /// End of the document.
    Eof,
    /// Any further token kind (declaration, comment, processing
    /// instruction, ...): ignored by the engine.
    Other,
    /// The tokenizer could not parse the input.
    Error,
}

/// Mathematical image of an `XmlEvent`.
pub enum EventV {
    Open { name: Seq<u8>, attrs: Seq<AttrPairV> },
    Text { bytes: Seq<u8> },
    Close,
    Eof,
    Other,
    Error,
}

impl View for XmlEvent {
    type V = EventV;

    open spec fn view(&self) -> EventV {
        match self {
            XmlEvent::Open(o) => EventV::Open {
                name: o.name@,
                attrs: o.attrs@.map_values(|a: AttrPair| a@),
            },
            XmlEvent::Text(t) => EventV::Text { bytes: t@ },
            XmlEvent::Close => EventV::Close,
            XmlEvent::Eof => EventV::Eof,
            XmlEvent::Other => EventV::Other,
            XmlEvent::Error => EventV::Error,
        }
    }
}

/// One attribute after interning: both key and value are views into the
/// shared read buffer.
#[derive(Clone, Copy, Debug, PartialEq, Eq, Structural)]
pub struct AttrView {
    pub key: FieldView,
    pub value: FieldView,
}

impl AttrView {
    pub open spec fn valid(self, buf: Seq<u8>) -> bool {
        self.key.valid(buf) && self.value.valid(buf)
    }
}

} // verus!
