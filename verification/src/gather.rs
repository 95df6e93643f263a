//! The extraction-strategy capability: construct an empty record, capture
//! attributes on element-open, capture text on a text event.
//!
//! Each concrete record schema implements `Gather`.  The behaviour of every
//! implementation is pinned down by its own spec-level transition functions
//! (`attr_step`, `text_step`), so that the record boundary engine can state,
//! schema-independently, that the record it emits is exactly the fold of the
//! routed events.

use vstd::prelude::*;
use crate::buffer::{FieldView, SharedBuf};
use crate::event::AttrView;
use crate::path::PathStack;

verus! {

pub trait Gather: Sized {
    /// The record with every field absent.
    spec fn init_rec() -> Self;

    /// Every captured view lies within a buffer holding `buf`.
    spec fn wf_rec(self, buf: Seq<u8>) -> bool;

    /// What capturing attributes at `path` does to the record.
    spec fn attr_step(self, buf: Seq<u8>, path: Seq<FieldView>, attrs: Seq<AttrView>) -> Self;

    /// What capturing the text `text` at `path` does to the record.
    spec fn text_step(self, buf: Seq<u8>, path: Seq<FieldView>, text: FieldView) -> Self;

    /// An empty record holds no view, whatever the buffer.
    proof fn lemma_init_wf(buf: Seq<u8>)
        ensures
            Self::init_rec().wf_rec(buf),
    ;

    /// Capturing from valid views keeps the record well formed.
    proof fn lemma_attr_step_wf(self, buf: Seq<u8>, path: Seq<FieldView>, attrs: Seq<AttrView>)
        requires
            self.wf_rec(buf),
            forall|i: int| 0 <= i < attrs.len() ==> (#[trigger] attrs[i]).valid(buf),
        ensures
            self.attr_step(buf, path, attrs).wf_rec(buf),
    ;

    /// Capturing a valid text view keeps the record well formed.
    proof fn lemma_text_step_wf(self, buf: Seq<u8>, path: Seq<FieldView>, text: FieldView)
        requires
            self.wf_rec(buf),
            text.valid(buf),
        ensures
            self.text_step(buf, path, text).wf_rec(buf),
    ;

    /// Well-formedness survives appends to the buffer: views are offsets,
    /// and offsets into a prefix stay in range.
    proof fn lemma_wf_mono(self, b1: Seq<u8>, b2: Seq<u8>)
        requires
            self.wf_rec(b1),
            b1.len() <= b2.len(),
            b2.subrange(0, b1.len() as int) == b1,
        ensures
            self.wf_rec(b2),
    ;

    /// Construct the empty record.
    fn new() -> (r: Self)
        ensures
            r == Self::init_rec(),
    ;

    /// Inspect the current path and capture attribute values of interest.
    fn gather_attr(&mut self, buf: &SharedBuf, path: &PathStack, attrs: &Vec<AttrView>)
        requires
            path.valid(buf@),
            forall|i: int| 0 <= i < attrs@.len() ==> (#[trigger] attrs@[i]).valid(buf@),
        ensures
            *final(self) == old(self).attr_step(buf@, path@, attrs@),
    ;

    /// Inspect the current path and capture the text view if it is of
    /// interest.
    fn gather_text(&mut self, buf: &SharedBuf, path: &PathStack, text: FieldView)
        requires
            path.valid(buf@),
            text.valid(buf@),
        ensures
            *final(self) == old(self).text_step(buf@, path@, text),
    ;
}

} // verus!
