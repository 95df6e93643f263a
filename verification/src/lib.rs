//! Streaming, depth-windowed XML record extraction.
//!
//! The crate consumes one XML document as a sequence of parse events, groups
//! events by a configurable nesting depth into records, and for each record
//! lets an extraction strategy capture selected attribute and text values,
//! keyed by element path.  Captured values are zero-copy views into one
//! shared, capacity-capped read buffer.

use vstd::prelude::*;

pub mod buffer;
pub mod engine;
pub mod event;
pub mod gather;
pub mod laws;
pub mod matching;
pub mod path;
pub mod schema;
pub mod stream;
pub mod tokenizer;

verus! {

/// Failures of one extraction stream.
#[derive(Clone, Copy, Debug, PartialEq, Eq, Structural)]
pub enum ExtractError {
    /// The tokenizer reported an unparseable byte sequence, or the element
    /// nesting grew beyond what a machine word can count.
    Malformed,
    /// An element-close event arrived without a matching element-open.
    DepthUnderflow,
    /// The shared read buffer would have had to grow past its configured
    /// capacity while a record was open.
    CapacityExceeded,
}

} // verus!
