//! The concrete record schemas of the sequencing-experiment metadata
//! domain: `Experiment` and `Study`.
//!
//! Each schema is a fixed set of named optional captured views, filled by
//! exact-path matching against its path templates.  A field whose template
//! never matches within a record stays absent.

use vstd::prelude::*;
use vstd::string::StringSliceAdditionalSpecFns;
use crate::buffer::{FieldView, SharedBuf};
use crate::event::AttrView;
use crate::gather::Gather;
use crate::matching::{attr_lookup, find_attr, path_matches1, path_matches2, path_matches3,
    path_names};
use crate::path::PathStack;

verus! {

pub open spec fn nm_experiment() -> Seq<u8> {
    ("EXPERIMENT").spec_bytes()
}

pub open spec fn nm_study_ref() -> Seq<u8> {
    ("STUDY_REF").spec_bytes()
}

pub open spec fn nm_design() -> Seq<u8> {
    ("DESIGN").spec_bytes()
}

pub open spec fn nm_sample_descriptor() -> Seq<u8> {
    ("SAMPLE_DESCRIPTOR").spec_bytes()
}

pub open spec fn nm_study() -> Seq<u8> {
    ("STUDY").spec_bytes()
}

pub open spec fn nm_descriptor() -> Seq<u8> {
    ("DESCRIPTOR").spec_bytes()
}

pub open spec fn nm_study_title() -> Seq<u8> {
    ("STUDY_TITLE").spec_bytes()
}

pub open spec fn nm_study_abstract() -> Seq<u8> {
    ("STUDY_ABSTRACT").spec_bytes()
}

pub open spec fn nm_accession() -> Seq<u8> {
    ("accession").spec_bytes()
}

pub open spec fn nm_alias() -> Seq<u8> {
    ("alias").spec_bytes()
}

/// An absent field is always in range; a present one must be.
pub open spec fn opt_valid(f: Option<FieldView>, buf: Seq<u8>) -> bool {
    match f {
        Some(v) => v.valid(buf),
        None => true,
    }
}

/// One sequencing experiment: `accession` attributes captured at
/// `[EXPERIMENT]`, `[EXPERIMENT, STUDY_REF]` and
/// `[EXPERIMENT, DESIGN, SAMPLE_DESCRIPTOR]`.
#[derive(Clone, Copy, Debug)]
pub struct Experiment {
    pub id: Option<FieldView>,
    pub study_ref: Option<FieldView>,
    pub sample_ref: Option<FieldView>,
}

impl Gather for Experiment {
    open spec fn init_rec() -> Self {
        Experiment { id: None, study_ref: None, sample_ref: None }
    }

    open spec fn wf_rec(self, buf: Seq<u8>) -> bool {
        opt_valid(self.id, buf) && opt_valid(self.study_ref, buf) && opt_valid(
            self.sample_ref,
            buf,
        )
    }

    open spec fn attr_step(self, buf: Seq<u8>, path: Seq<FieldView>, attrs: Seq<AttrView>) -> Self {
        let names = path_names(buf, path);
        if names == seq![nm_experiment()] {
            Experiment { id: attr_lookup(buf, attrs, nm_accession()), ..self }
        } else if names == seq![nm_experiment(), nm_study_ref()] {
            Experiment { study_ref: attr_lookup(buf, attrs, nm_accession()), ..self }
        } else if names == seq![nm_experiment(), nm_design(), nm_sample_descriptor()] {
            Experiment { sample_ref: attr_lookup(buf, attrs, nm_accession()), ..self }
        } else {
            self
        }
    }

    open spec fn text_step(self, buf: Seq<u8>, path: Seq<FieldView>, text: FieldView) -> Self {
        self
    }

    proof fn lemma_init_wf(buf: Seq<u8>) {
    }

    proof fn lemma_attr_step_wf(self, buf: Seq<u8>, path: Seq<FieldView>, attrs: Seq<AttrView>) {
        crate::matching::lemma_attr_lookup_valid(buf, attrs, nm_accession());
    }

    proof fn lemma_text_step_wf(self, buf: Seq<u8>, path: Seq<FieldView>, text: FieldView) {
    }

    proof fn lemma_wf_mono(self, b1: Seq<u8>, b2: Seq<u8>) {
    }

    fn new() -> (r: Self) {
        Experiment { id: None, study_ref: None, sample_ref: None }
    }

    fn gather_attr(&mut self, buf: &SharedBuf, path: &PathStack, attrs: &Vec<AttrView>) {
        if path_matches1(buf, path, ("EXPERIMENT").as_bytes()) {
            self.id = find_attr(buf, attrs, ("accession").as_bytes());
        } else if path_matches2(buf, path, ("EXPERIMENT").as_bytes(), ("STUDY_REF").as_bytes()) {
            self.study_ref = find_attr(buf, attrs, ("accession").as_bytes());
        } else if path_matches3(
            buf,
            path,
            ("EXPERIMENT").as_bytes(),
            ("DESIGN").as_bytes(),
            ("SAMPLE_DESCRIPTOR").as_bytes(),
        ) {
            self.sample_ref = find_attr(buf, attrs, ("accession").as_bytes());
        }
    }

    fn gather_text(&mut self, buf: &SharedBuf, path: &PathStack, text: FieldView) {
    }
}

/// One study: `accession` and `alias` attributes captured at `[STUDY]`,
/// title and abstract text captured at `[STUDY, DESCRIPTOR, STUDY_TITLE]`
/// and `[STUDY, DESCRIPTOR, STUDY_ABSTRACT]`.
#[derive(Clone, Copy, Debug)]
pub struct Study {
    pub id: Option<FieldView>,
    pub alias: Option<FieldView>,
    pub title: Option<FieldView>,
    pub abstract_text: Option<FieldView>,
}

impl Gather for Study {
    open spec fn init_rec() -> Self {
        Study { id: None, alias: None, title: None, abstract_text: None }
    }

    open spec fn wf_rec(self, buf: Seq<u8>) -> bool {
        opt_valid(self.id, buf) && opt_valid(self.alias, buf) && opt_valid(self.title, buf)
            && opt_valid(self.abstract_text, buf)
    }

    open spec fn attr_step(self, buf: Seq<u8>, path: Seq<FieldView>, attrs: Seq<AttrView>) -> Self {
        let names = path_names(buf, path);
        if names == seq![nm_study()] {
            Study {
                id: attr_lookup(buf, attrs, nm_accession()),
                alias: attr_lookup(buf, attrs, nm_alias()),
                ..self
            }
        } else {
            self
        }
    }

    open spec fn text_step(self, buf: Seq<u8>, path: Seq<FieldView>, text: FieldView) -> Self {
        let names = path_names(buf, path);
        if names == seq![nm_study(), nm_descriptor(), nm_study_title()] {
            Study { title: Some(text), ..self }
        } else if names == seq![nm_study(), nm_descriptor(), nm_study_abstract()] {
            Study { abstract_text: Some(text), ..self }
        } else {
            self
        }
    }

    proof fn lemma_init_wf(buf: Seq<u8>) {
    }

    proof fn lemma_attr_step_wf(self, buf: Seq<u8>, path: Seq<FieldView>, attrs: Seq<AttrView>) {
        crate::matching::lemma_attr_lookup_valid(buf, attrs, nm_accession());
        crate::matching::lemma_attr_lookup_valid(buf, attrs, nm_alias());
    }

    proof fn lemma_text_step_wf(self, buf: Seq<u8>, path: Seq<FieldView>, text: FieldView) {
    }

    proof fn lemma_wf_mono(self, b1: Seq<u8>, b2: Seq<u8>) {
    }

    fn new() -> (r: Self) {
        Study { id: None, alias: None, title: None, abstract_text: None }
    }

    fn gather_attr(&mut self, buf: &SharedBuf, path: &PathStack, attrs: &Vec<AttrView>) {
        if path_matches1(buf, path, ("STUDY").as_bytes()) {
            self.id = find_attr(buf, attrs, ("accession").as_bytes());
            self.alias = find_attr(buf, attrs, ("alias").as_bytes());
        }
    }

    fn gather_text(&mut self, buf: &SharedBuf, path: &PathStack, text: FieldView) {
        if path_matches3(
            buf,
            path,
            ("STUDY").as_bytes(),
            ("DESCRIPTOR").as_bytes(),
            ("STUDY_TITLE").as_bytes(),
        ) {
            self.title = Some(text);
        } else if path_matches3(
            buf,
            path,
            ("STUDY").as_bytes(),
            ("DESCRIPTOR").as_bytes(),
            ("STUDY_ABSTRACT").as_bytes(),
        ) {
            self.abstract_text = Some(text);
        }
    }
}

} // verus!
