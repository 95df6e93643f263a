//! The record stream: the public iteration surface.
//!
//! A `FileParser` wraps one in-memory document and one extraction strategy
//! type and produces a lazy, finite, forward-only sequence of completed
//! records.  Each `next` call drives the tokenizer until a record boundary,
//! end of input, or a fatal condition; once end of input is reached the
//! stream is exhausted permanently and further calls keep reporting
//! exhaustion.

use vstd::prelude::*;
use crate::ExtractError;
use crate::buffer::SharedBuf;
use crate::engine::{init_stv, run_spec, EngineV, RecordEngine};
use crate::event::EventV;
use crate::gather::Gather;
use crate::tokenizer::{event_at, Tokenizer, xml_events_of};

verus! {

/// An upper bound on the events a `next` call still has to pull: past the
/// produced sequence the tokenizer reports end-of-input, which ends the
/// call.
pub open spec fn remaining_events(input: Seq<u8>, served: int) -> int {
    if served <= xml_events_of(input).len() {
        xml_events_of(input).len() + 1 - served
    } else {
        0
    }
}

/// The events served between positions `a` and `b` of the tokenizer over
/// `input`.
pub open spec fn consumed(input: Seq<u8>, a: int, b: int) -> Seq<EventV> {
    Seq::new((b - a) as nat, |k: int| event_at(input, a + k))
}

/// The records the engine extracts from `input` as a whole, as a function
/// of the input bytes, the group depth and the buffer capacity.
pub open spec fn records_of<D: Gather>(input: Seq<u8>, group_depth: int, cap: int) -> Seq<D> {
    run_spec(init_stv::<D>(group_depth, cap), xml_events_of(input)).emits
}

/// One extraction run: a record boundary engine pulling from one tokenizer.
pub struct FileParser<D: Gather> {
    tok: Tokenizer,
    eng: RecordEngine<D>,
}

impl<D: Gather> FileParser<D> {
    /// The mathematical state of the engine.
    pub closed spec fn stv(&self) -> EngineV<D> {
        self.eng.stv()
    }

    /// The document bytes this stream was built over.
    pub closed spec fn input_spec(&self) -> Seq<u8> {
        self.tok.input_spec()
    }

    /// How many events have been consumed so far.
    pub closed spec fn served_spec(&self) -> int {
        self.tok.served_spec()
    }

    pub open spec fn wf(&self) -> bool {
        crate::engine::wf_st(self.stv()) && self.served_spec() >= 0
    }

    pub fn new(group_depth: usize, capacity: usize, input: Vec<u8>) -> (r: FileParser<D>)
        requires
            group_depth >= 1,
        ensures
            r.wf(),
            r.input_spec() == input@,
            r.served_spec() == 0,
            r.stv() == init_stv::<D>(group_depth as int, capacity as int),
    {
        FileParser { tok: Tokenizer::new(input), eng: RecordEngine::new(group_depth, capacity) }
    }

    /// The shared read buffer, for resolving the views of the record the
    /// last `next` call emitted.
    pub fn buffer(&self) -> (r: &SharedBuf)
        ensures
            r@ == self.stv().buf,
            r.capacity() == self.stv().cap,
    {
        self.eng.buffer()
    }

    /// Produce the next completed record.
    ///
    /// `Ok(Some(rec))`: the events consumed by this call drove the engine
    /// through exactly one emission, `rec`, whose views are in range of the
    /// surviving buffer.  `Ok(None)`: the stream is exhausted; the consumed
    /// events emitted nothing.  `Err(e)`: a fatal condition; the partial
    /// record is discarded, nothing is emitted.
    pub fn next(&mut self) -> (r: Result<Option<D>, ExtractError>)
        requires
            old(self).wf(),
        ensures
            final(self).wf(),
            final(self).input_spec() == old(self).input_spec(),
            final(self).served_spec() >= old(self).served_spec(),
            ({
                let run = run_spec(
                    old(self).stv(),
                    consumed(
                        old(self).input_spec(),
                        old(self).served_spec(),
                        final(self).served_spec(),
                    ),
                );
                &&& final(self).stv() == run.st
                &&& match r {
                    Ok(Some(rec)) => run.err is None && run.emits =~= seq![rec]
                        && rec.wf_rec(final(self).stv().buf),
                    Ok(None) => run.err is None && run.emits.len() == 0
                        && final(self).stv().done,
                    Err(er) => run.err == Some(er) && run.emits.len() == 0,
                }
            }),
    {
        let ghost st0 = self.eng.stv();
        let ghost inp = self.tok.input_spec();
        let ghost s0 = self.tok.served_spec();
        proof {
            assert(consumed(inp, s0, s0) =~= Seq::<EventV>::empty());
        }
        loop
            invariant
                self.eng.wf(),
                self.tok.input_spec() == inp,
                self.tok.served_spec() >= s0,
                s0 >= 0,
                st0 == old(self).stv(),
                inp == old(self).input_spec(),
                s0 == old(self).served_spec(),
                ({
                    let run = run_spec(st0, consumed(inp, s0, self.tok.served_spec()));
                    &&& run.err is None
                    &&& run.emits.len() == 0
                    &&& run.st == self.eng.stv()
                }),
            decreases remaining_events(inp, self.tok.served_spec()),
        {
            let ghost sb = self.tok.served_spec();
            let e = self.tok.next_event();
            proof {
                assert(consumed(inp, s0, sb + 1) =~= consumed(inp, s0, sb).push(
                    event_at(inp, sb),
                ));
                crate::engine::lemma_run_snoc(st0, consumed(inp, s0, sb), e@);
            }
            match self.eng.process_event(&e) {
                Ok(Some(rec)) => {
                    return Ok(Some(rec));
                },
                Ok(None) => {
                    if self.eng.is_done() {
                        return Ok(None);
                    }
                },
                Err(er) => {
                    return Err(er);
                },
            }
        }
    }
}

} // verus!
