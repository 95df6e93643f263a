//! End-to-end and component tests of the record extractor.

use xmlrec::buffer::SharedBuf;
use xmlrec::engine::RecordEngine;
use xmlrec::event::{AttrPair, OpenEvent, XmlEvent};
use xmlrec::path::PathStack;
use xmlrec::schema::{Experiment, Study};
use xmlrec::stream::FileParser;
use xmlrec::ExtractError;

const CAP: usize = 1 << 16;

fn open_ev(name: &str, attrs: &[(&str, &str)]) -> XmlEvent {
    XmlEvent::Open(OpenEvent {
        name: name.as_bytes().to_vec(),
        attrs: attrs
            .iter()
            .map(|(k, v)| AttrPair { key: k.as_bytes().to_vec(), value: v.as_bytes().to_vec() })
            .collect(),
    })
}

fn view_str(buf: &SharedBuf, v: Option<xmlrec::buffer::FieldView>) -> Option<String> {
    v.map(|v| String::from_utf8(buf.view_bytes(v).to_vec()).unwrap())
}

#[test]
fn scenario_experiment_basic() {
    let input = br#"<EXPERIMENT accession="SRX1"><STUDY_REF accession="SRP1"/></EXPERIMENT>"#;
    let mut p: FileParser<Experiment> = FileParser::new(1, CAP, input.to_vec());
    let rec = p.next().unwrap().expect("one record");
    assert_eq!(view_str(p.buffer(), rec.id).as_deref(), Some("SRX1"));
    assert_eq!(view_str(p.buffer(), rec.study_ref).as_deref(), Some("SRP1"));
    assert!(rec.sample_ref.is_none());
    assert!(p.next().unwrap().is_none());
}

#[test]
fn scenario_experiment_sample_descriptor() {
    let input = br#"<EXPERIMENT accession="SRX9"><DESIGN><SAMPLE_DESCRIPTOR accession="SRS7"/></DESIGN></EXPERIMENT>"#;
    let mut p: FileParser<Experiment> = FileParser::new(1, CAP, input.to_vec());
    let rec = p.next().unwrap().expect("one record");
    assert_eq!(view_str(p.buffer(), rec.id).as_deref(), Some("SRX9"));
    assert!(rec.study_ref.is_none());
    assert_eq!(view_str(p.buffer(), rec.sample_ref).as_deref(), Some("SRS7"));
}

#[test]
fn scenario_study_fields() {
    let input = br#"<STUDY accession="SRP2" alias="A"><DESCRIPTOR><STUDY_TITLE>T</STUDY_TITLE><STUDY_ABSTRACT>Ab</STUDY_ABSTRACT></DESCRIPTOR></STUDY>"#;
    let mut p: FileParser<Study> = FileParser::new(1, CAP, input.to_vec());
    let rec = p.next().unwrap().expect("one record");
    assert_eq!(view_str(p.buffer(), rec.id).as_deref(), Some("SRP2"));
    assert_eq!(view_str(p.buffer(), rec.alias).as_deref(), Some("A"));
    assert_eq!(view_str(p.buffer(), rec.title).as_deref(), Some("T"));
    assert_eq!(view_str(p.buffer(), rec.abstract_text).as_deref(), Some("Ab"));
    assert!(p.next().unwrap().is_none());
}

#[test]
fn scenario_sibling_records() {
    let input =
        br#"<ROOT><EXPERIMENT accession="SRX1"/><EXPERIMENT accession="SRX2"/></ROOT>"#;
    let mut p: FileParser<Experiment> = FileParser::new(2, CAP, input.to_vec());
    let first = p.next().unwrap().expect("first record");
    assert_eq!(view_str(p.buffer(), first.id).as_deref(), Some("SRX1"));
    let second = p.next().unwrap().expect("second record");
    assert_eq!(view_str(p.buffer(), second.id).as_deref(), Some("SRX2"));
    assert!(p.next().unwrap().is_none());
}

#[test]
fn scenario_truncated_input() {
    let input = br#"<ROOT><EXPERIMENT accession="SRX1"></EXPERIMENT><EXPERIMENT accession="SRX2">"#;
    let mut p: FileParser<Experiment> = FileParser::new(2, CAP, input.to_vec());
    let first = p.next().unwrap().expect("complete record before the truncation");
    assert_eq!(view_str(p.buffer(), first.id).as_deref(), Some("SRX1"));
    // The unterminated second record is discarded: exhaustion or a stream
    // error, never a partial record.
    match p.next() {
        Ok(Some(_)) => panic!("a partial record must not be emitted"),
        Ok(None) | Err(_) => {},
    }
}

#[test]
fn path_stack_push_pop() {
    let mut buf = SharedBuf::new(64);
    let a = buf.append(b"OUTER").unwrap();
    let b = buf.append(b"INNER").unwrap();
    let mut path = PathStack::new();
    assert_eq!(path.len(), 0);
    path.push(a);
    path.push(b);
    assert_eq!(path.len(), 2);
    assert_eq!(buf.view_bytes(path.get(0)), b"OUTER");
    assert_eq!(buf.view_bytes(path.get(1)), b"INNER");
    path.pop();
    assert_eq!(path.len(), 1);
    path.pop();
    assert_eq!(path.len(), 0);
    // a pop below the tracked window is a no-op
    path.pop();
    assert_eq!(path.len(), 0);
}

#[test]
fn emit_exactly_at_group_boundary() {
    let mut eng: RecordEngine<Experiment> = RecordEngine::new(2, CAP);
    assert!(matches!(eng.process_event(&open_ev("ROOT", &[])), Ok(None)));
    assert!(matches!(
        eng.process_event(&open_ev("EXPERIMENT", &[("accession", "SRX5")])),
        Ok(None)
    ));
    // closing back to depth 1 == group_depth - 1 emits the record
    let rec = eng.process_event(&XmlEvent::Close).unwrap().expect("record at boundary");
    assert_eq!(view_str(eng.buffer(), rec.id).as_deref(), Some("SRX5"));
    // closing the root emits nothing
    assert!(matches!(eng.process_event(&XmlEvent::Close), Ok(None)));
    assert!(matches!(eng.process_event(&XmlEvent::Eof), Ok(None)));
    assert!(eng.is_done());
}

#[test]
fn unterminated_record_yields_nothing() {
    let mut eng: RecordEngine<Experiment> = RecordEngine::new(1, CAP);
    assert!(matches!(
        eng.process_event(&open_ev("EXPERIMENT", &[("accession", "SRX5")])),
        Ok(None)
    ));
    // end of input mid-record: the partial record is discarded
    assert!(matches!(eng.process_event(&XmlEvent::Eof), Ok(None)));
    assert!(eng.is_done());
    // the end state is idempotent: further events yield nothing
    assert!(matches!(eng.process_event(&XmlEvent::Close), Ok(None)));
    assert!(matches!(eng.process_event(&XmlEvent::Eof), Ok(None)));
}

#[test]
fn rerun_yields_identical_records() {
    let input =
        br#"<ROOT><EXPERIMENT accession="SRX1"/><EXPERIMENT accession="SRX2"/></ROOT>"#;
    let mut out1: Vec<Option<String>> = Vec::new();
    let mut out2: Vec<Option<String>> = Vec::new();
    for out in [&mut out1, &mut out2] {
        let mut p: FileParser<Experiment> = FileParser::new(2, CAP, input.to_vec());
        while let Ok(Some(rec)) = p.next() {
            out.push(view_str(p.buffer(), rec.id));
        }
    }
    assert_eq!(out1, out2);
    assert_eq!(out1, vec![Some("SRX1".to_string()), Some("SRX2".to_string())]);
}

#[test]
fn no_stale_field_from_prior_record() {
    let input = br#"<ROOT><EXPERIMENT accession="SRX1"><STUDY_REF accession="SRP1"/></EXPERIMENT><EXPERIMENT accession="SRX2"/></ROOT>"#;
    let mut p: FileParser<Experiment> = FileParser::new(2, CAP, input.to_vec());
    let first = p.next().unwrap().expect("first record");
    assert_eq!(view_str(p.buffer(), first.study_ref).as_deref(), Some("SRP1"));
    let second = p.next().unwrap().expect("second record");
    assert_eq!(view_str(p.buffer(), second.id).as_deref(), Some("SRX2"));
    // the second record never matched the STUDY_REF template: the field is
    // absent, not the prior record's value
    assert!(second.study_ref.is_none());
}

#[test]
fn capacity_guard_trips_exactly() {
    // stored bytes of the one record: name "AB" (2) + key "accession" (9)
    // + value "x" (1) = 12
    let input = br#"<AB accession="x"/>"#;
    let mut fitting: FileParser<Experiment> = FileParser::new(1, 12, input.to_vec());
    assert!(fitting.next().unwrap().is_some());
    let mut tight: FileParser<Experiment> = FileParser::new(1, 11, input.to_vec());
    assert!(matches!(tight.next(), Err(ExtractError::CapacityExceeded)));
}

#[test]
fn capacity_guard_counts_text() {
    // stored bytes: name "A" (1) + text "hello" (5) = 6
    let input = br#"<A>hello</A>"#;
    let mut fitting: FileParser<Study> = FileParser::new(1, 6, input.to_vec());
    assert!(fitting.next().unwrap().is_some());
    let mut tight: FileParser<Study> = FileParser::new(1, 5, input.to_vec());
    assert!(matches!(tight.next(), Err(ExtractError::CapacityExceeded)));
}

#[test]
fn close_without_open_is_underflow() {
    let mut eng: RecordEngine<Experiment> = RecordEngine::new(1, CAP);
    assert!(matches!(eng.process_event(&XmlEvent::Close), Err(ExtractError::DepthUnderflow)));
}

#[test]
fn tokenizer_error_event_is_malformed() {
    let mut eng: RecordEngine<Experiment> = RecordEngine::new(1, CAP);
    assert!(matches!(eng.process_event(&XmlEvent::Error), Err(ExtractError::Malformed)));
}

#[test]
fn empty_input_is_exhausted_at_once() {
    let mut p: FileParser<Experiment> = FileParser::new(1, CAP, Vec::new());
    assert!(p.next().unwrap().is_none());
    assert!(p.next().unwrap().is_none());
}

#[test]
fn first_attribute_wins_on_equal_keys() {
    let mut eng: RecordEngine<Experiment> = RecordEngine::new(1, CAP);
    let ev = open_ev("EXPERIMENT", &[("accession", "FIRST"), ("accession", "SECOND")]);
    assert!(matches!(eng.process_event(&ev), Ok(None)));
    let rec = eng.process_event(&XmlEvent::Close).unwrap().expect("record");
    assert_eq!(view_str(eng.buffer(), rec.id).as_deref(), Some("FIRST"));
}

#[test]
fn prolog_and_comments_are_ignored() {
    let input = br#"<?xml version="1.0"?><!-- header --><EXPERIMENT accession="SRX3"/>"#;
    let mut p: FileParser<Experiment> = FileParser::new(1, CAP, input.to_vec());
    let rec = p.next().unwrap().expect("one record");
    assert_eq!(view_str(p.buffer(), rec.id).as_deref(), Some("SRX3"));
}

#[test]
fn unrelated_paths_leave_fields_absent() {
    let input = br#"<STUDY accession="SRP3"><OTHER><STUDY_TITLE>nope</STUDY_TITLE></OTHER></STUDY>"#;
    let mut p: FileParser<Study> = FileParser::new(1, CAP, input.to_vec());
    let rec = p.next().unwrap().expect("one record");
    assert_eq!(view_str(p.buffer(), rec.id).as_deref(), Some("SRP3"));
    // [STUDY, OTHER, STUDY_TITLE] is not [STUDY, DESCRIPTOR, STUDY_TITLE]:
    // exact-path matching, no prefix or wildcard match
    assert!(rec.title.is_none());
}

#[test]
fn shared_buffer_append_and_resolve() {
    let mut buf = SharedBuf::new(8);
    let v1 = buf.append(b"abc").unwrap();
    let v2 = buf.append(b"defgh").unwrap();
    assert_eq!(buf.view_bytes(v1), b"abc");
    assert_eq!(buf.view_bytes(v2), b"defgh");
    assert_eq!(buf.len(), 8);
    // the buffer never grows past its capacity, and a failed append
    // changes nothing
    assert_eq!(buf.append(b"i"), Err(ExtractError::CapacityExceeded));
    assert_eq!(buf.view_bytes(v2), b"defgh");
    buf.clear();
    assert_eq!(buf.len(), 0);
}
