//! The event source: the external XML tokenizer behind trusted wrappers.
//!
//! Parsing an in-memory byte sequence with quick_xml is deterministic: the
//! i-th event it hands out is a function of the input bytes alone (the
//! reader is always configured the same way here: empty elements expanded,
//! text trimmed).  That function is named `xml_events_of`; nothing more is
//! taken on trust about it.

use vstd::prelude::*;
use crate::event::{AttrPair, EventV, OpenEvent, XmlEvent};

verus! {

#[verifier::external_type_specification]
#[verifier::external_body]
#[verifier::reject_recursive_types(R)]
pub struct ExReader<R>(quick_xml::Reader<R>);

#[verifier::external_type_specification]
#[verifier::external_body]
#[verifier::reject_recursive_types(T)]
pub struct ExCursor<T>(std::io::Cursor<T>);

#[verifier::external_type_specification]
#[verifier::external_body]
pub struct ExEvent<'a>(quick_xml::events::Event<'a>);

#[verifier::external_type_specification]
#[verifier::external_body]
pub struct ExBytesStart<'a>(quick_xml::events::BytesStart<'a>);

#[verifier::external_type_specification]
#[verifier::external_body]
pub struct ExXmlError(quick_xml::Error);

/// The event sequence the tokenizer produces for `input`: a pure function
/// of the input bytes, since the tokenizer parses in-memory bytes with a
/// fixed configuration.
pub uninterp spec fn xml_events_of(input: Seq<u8>) -> Seq<EventV>;

/// The i-th event served for `input`; past the produced sequence the
/// tokenizer keeps reporting end-of-input.
pub open spec fn event_at(input: Seq<u8>, i: int) -> EventV {
    if 0 <= i < xml_events_of(input).len() {
        xml_events_of(input)[i]
    } else {
        EventV::Eof
    }
}

/// One tokenizer over one in-memory document; forward-only.
pub struct Tokenizer {
    reader: quick_xml::Reader<std::io::Cursor<Vec<u8>>>,
    scratch: Vec<u8>,
    input: Ghost<Seq<u8>>,
    served: Ghost<int>,
}

impl Tokenizer {
    /// The bytes this tokenizer was built over.
    pub closed spec fn input_spec(&self) -> Seq<u8> {
        self.input@
    }

    /// How many events have been handed out so far.
    pub closed spec fn served_spec(&self) -> int {
        self.served@
    }

    pub fn new(input: Vec<u8>) -> (r: Tokenizer)
        ensures
            r.input_spec() == input@,
            r.served_spec() == 0,
    {
        let ghost iv = input@;
        Tokenizer {
            reader: make_reader(input),
            scratch: Vec::new(),
            input: Ghost(iv),
            served: Ghost(0int),
        }
    }

    /// Relies on quick_xml::Reader::read_event_into: parsing in-memory
    /// bytes with a fixed configuration is deterministic, so the event
    /// handed out is `event_at` of the input and the call's position; after
    /// the end-of-input event every further call reports end-of-input
    /// again.
    #[verifier::external_body]
    pub fn next_event(&mut self) -> (e: XmlEvent)
        ensures
            final(self).input_spec() == old(self).input_spec(),
            final(self).served_spec() == old(self).served_spec() + 1,
            0 <= old(self).served_spec() < xml_events_of(old(self).input_spec()).len()
                ==> e@ == xml_events_of(old(self).input_spec())[old(self).served_spec()],
            e@ == event_at(old(self).input_spec(), old(self).served_spec()),
    {
        self.scratch.clear();
        let r = self.reader.read_event_into(&mut self.scratch);
        convert_event(r)
    }
}

/// Relies on quick_xml::Reader::from_reader and Config: empty elements are
/// expanded into open/close pairs and text is trimmed on both sides.
#[verifier::external_body]
fn make_reader(input: Vec<u8>) -> (r: quick_xml::Reader<std::io::Cursor<Vec<u8>>>) {
    let mut reader = quick_xml::Reader::from_reader(std::io::Cursor::new(input));
    reader.config_mut().expand_empty_elements = true;
    reader.config_mut().trim_text(true);
    reader
}

/// Relies on the shape of quick_xml::events::Event: each variant is mapped
/// to the engine's event kind, moving the bytes out; tokenizer errors
/// become the error event.
#[verifier::external_body]
fn convert_event(r: Result<quick_xml::events::Event<'_>, quick_xml::Error>) -> (e: XmlEvent) {
    match r {
        Ok(quick_xml::events::Event::Start(s)) => XmlEvent::Open(convert_start(&s)),
        Ok(quick_xml::events::Event::Text(t)) => XmlEvent::Text(t.as_ref().as_bytes().to_vec()),
        Ok(quick_xml::events::Event::End(_)) => XmlEvent::Close,
        Ok(quick_xml::events::Event::Eof) => XmlEvent::Eof,
        Ok(_) => XmlEvent::Other,
        Err(_) => XmlEvent::Error,
    }
}

/// Relies on quick_xml::events::BytesStart::name and ::attributes: the
/// element name, and the attribute key/value pairs in document order;
/// attributes the tokenizer itself rejects are skipped.
#[verifier::external_body]
fn convert_start(s: &quick_xml::events::BytesStart<'_>) -> (o: OpenEvent) {
    OpenEvent {
        name: s.name().into_inner().as_bytes().to_vec(),
        attrs: s.attributes().filter_map(|a| a.ok()).map(
            |a| AttrPair {
                key: a.key.into_inner().as_bytes().to_vec(),
                value: a.value.as_bytes().to_vec(),
            },
        ).collect(),
    }
}

} // verus!
