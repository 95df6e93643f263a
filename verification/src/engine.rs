//! The record boundary engine: the depth-tracking parse loop.
//!
//! The engine consumes parse events one at a time, maintains the current
//! depth and path stack, interns event bytes into the shared read buffer,
//! and routes events to the active extraction strategy once the depth
//! reaches the configured group depth.  A record is complete when an
//! element-close returns the depth to one below the group depth.
//!
//! The whole step is pinned down by the spec-level transition function
//! `step_spec`: executing `process_event` computes exactly that function of
//! the previous state and the event.

use vstd::prelude::*;
use crate::ExtractError;
use crate::buffer::{FieldView, SharedBuf};
use crate::event::{AttrPair, AttrPairV, AttrView, EventV, OpenEvent, XmlEvent};
use crate::gather::Gather;
use crate::path::PathStack;

verus! {

/// Mathematical state of one record boundary engine.
pub struct EngineV<D> {
    /// Nesting level at which a record begins; at least 1.
    pub group_depth: int,
    /// Fixed capacity of the shared read buffer.
    pub cap: int,
    /// Current element nesting depth.
    pub depth: int,
    /// Contents of the shared read buffer.
    pub buf: Seq<u8>,
    /// Element-name views of the tracked part of the path.
    pub path: Seq<FieldView>,
    /// The record under construction, if a record is open.
    pub data: Option<D>,
    /// Whether the stream reached its permanent end state.
    pub done: bool,
}

/// Outcome of one engine step: the successor state, the record emitted by
/// the step if any, and the error raised by the step if any.
pub struct StepOutV<D> {
    pub st: EngineV<D>,
    pub emit: Option<D>,
    pub err: Option<ExtractError>,
}

/// Bytes an element-open event's attributes occupy in the shared buffer.
pub open spec fn attrs_size(attrs: Seq<AttrPairV>) -> nat
    decreases attrs.len(),
{
    if attrs.len() == 0 {
        0
    } else {
        attrs[0].key.len() + attrs[0].value.len() + attrs_size(attrs.drop_first())
    }
}

/// Bytes an event contributes to the shared buffer when it is routed to an
/// open record.
pub open spec fn stored_size(e: EventV) -> nat {
    match e {
        EventV::Open { name, attrs } => name.len() + attrs_size(attrs),
        EventV::Text { bytes } => bytes.len(),
        _ => 0,
    }
}

/// Intern an attribute list into the buffer: key bytes, then value bytes,
/// attribute after attribute.  Returns the grown buffer and the views.
pub open spec fn intern_attrs(buf: Seq<u8>, attrs: Seq<AttrPairV>) -> (Seq<u8>, Seq<AttrView>)
    decreases attrs.len(),
{
    if attrs.len() == 0 {
        (buf, Seq::<AttrView>::empty())
    } else {
        let a = attrs[0];
        let kv = FieldView { off: buf.len() as usize, len: a.key.len() as usize };
        let b1 = buf + a.key;
        let vv = FieldView { off: b1.len() as usize, len: a.value.len() as usize };
        let b2 = b1 + a.value;
        let rest = intern_attrs(b2, attrs.drop_first());
        (rest.0, seq![AttrView { key: kv, value: vv }] + rest.1)
    }
}

/// Interning appends exactly the attribute bytes, keeps the old contents as
/// a prefix, and yields one in-range view pair per attribute.
pub proof fn lemma_intern_attrs_props(buf: Seq<u8>, attrs: Seq<AttrPairV>)
    ensures
        intern_attrs(buf, attrs).0.len() == buf.len() + attrs_size(attrs),
        intern_attrs(buf, attrs).0.subrange(0, buf.len() as int) == buf,
        intern_attrs(buf, attrs).1.len() == attrs.len(),
        forall|i: int|
            0 <= i < attrs.len() ==> (#[trigger] intern_attrs(buf, attrs).1[i]).valid(
                intern_attrs(buf, attrs).0,
            ),
    decreases attrs.len(),
{
    if attrs.len() == 0 {
        assert(intern_attrs(buf, attrs).0.subrange(0, buf.len() as int) =~= buf);
    } else {
        let a = attrs[0];
        let b2 = buf + a.key + a.value;
        lemma_intern_attrs_props(b2, attrs.drop_first());
        assert(intern_attrs(b2, attrs.drop_first()).0.subrange(0, b2.len() as int) == b2);
        assert(intern_attrs(buf, attrs).0.subrange(0, buf.len() as int) =~= buf);
    }
}

/// The terminal state entered on a fatal condition or at end of input: the
/// buffer and the path are dropped, no record is open, the stream is done.
pub open spec fn halted<D>(st: EngineV<D>) -> EngineV<D> {
    EngineV {
        done: true,
        data: None,
        buf: Seq::<u8>::empty(),
        path: Seq::<FieldView>::empty(),
        ..st
    }
}

/// One engine step for an element-open event.
pub open spec fn step_open<D: Gather>(st: EngineV<D>, name: Seq<u8>, attrs: Seq<AttrPairV>) -> StepOutV<
    D,
> {
    if st.depth >= usize::MAX {
        StepOutV { st: halted(st), emit: None, err: Some(ExtractError::Malformed) }
    } else {
        let d = st.depth + 1;
        if d < st.group_depth {
            StepOutV { st: EngineV { depth: d, ..st }, emit: None, err: None }
        } else {
            let buf0 = if st.data is None { Seq::<u8>::empty() } else { st.buf };
            let path0 = if st.data is None { Seq::<FieldView>::empty() } else { st.path };
            let data0 = match st.data {
                Some(rec) => rec,
                None => D::init_rec(),
            };
            if buf0.len() + name.len() + attrs_size(attrs) > st.cap {
                StepOutV { st: halted(st), emit: None, err: Some(ExtractError::CapacityExceeded) }
            } else {
                let nv = FieldView { off: buf0.len() as usize, len: name.len() as usize };
                let b1 = buf0 + name;
                let p1 = path0.push(nv);
                let ia = intern_attrs(b1, attrs);
                let d1 = data0.attr_step(ia.0, p1, ia.1);
                StepOutV {
                    st: EngineV { depth: d, buf: ia.0, path: p1, data: Some(d1), ..st },
                    emit: None,
                    err: None,
                }
            }
        }
    }
}

/// One engine step for a text event.
pub open spec fn step_text<D: Gather>(st: EngineV<D>, bytes: Seq<u8>) -> StepOutV<D> {
    match st.data {
        None => StepOutV { st, emit: None, err: None },
        Some(rec) => {
            if st.buf.len() + bytes.len() > st.cap {
                StepOutV { st: halted(st), emit: None, err: Some(ExtractError::CapacityExceeded) }
            } else {
                let tv = FieldView { off: st.buf.len() as usize, len: bytes.len() as usize };
                let b1 = st.buf + bytes;
                let d1 = rec.text_step(b1, st.path, tv);
                StepOutV {
                    st: EngineV { buf: b1, data: Some(d1), ..st },
                    emit: None,
                    err: None,
                }
            }
        },
    }
}

/// One engine step for an element-close event.
pub open spec fn step_close<D: Gather>(st: EngineV<D>) -> StepOutV<D> {
    if st.depth <= 0 {
        StepOutV { st: halted(st), emit: None, err: Some(ExtractError::DepthUnderflow) }
    } else {
        let d = st.depth - 1;
        let p1 = if st.path.len() > 0 {
            st.path.drop_last()
        } else {
            st.path
        };
        if d == st.group_depth - 1 && st.data is Some {
            StepOutV {
                st: EngineV { depth: d, path: p1, data: None, ..st },
                emit: st.data,
                err: None,
            }
        } else {
            StepOutV { st: EngineV { depth: d, path: p1, ..st }, emit: None, err: None }
        }
    }
}

/// The full transition function of the record boundary engine.  Once the
/// state is done, every further event is ignored: the end state is
/// idempotent, not an error.
pub open spec fn step_spec<D: Gather>(st: EngineV<D>, e: EventV) -> StepOutV<D> {
    if st.done {
        StepOutV { st, emit: None, err: None }
    } else {
        match e {
            EventV::Open { name, attrs } => step_open(st, name, attrs),
            EventV::Text { bytes } => step_text(st, bytes),
            EventV::Close => step_close(st),
            EventV::Eof => StepOutV { st: halted(st), emit: None, err: None },
            EventV::Other => StepOutV { st, emit: None, err: None },
            EventV::Error => StepOutV {
                st: halted(st),
                emit: None,
                err: Some(ExtractError::Malformed),
            },
        }
    }
}

/// Well-formedness of an engine state.
pub open spec fn wf_st<D: Gather>(st: EngineV<D>) -> bool {
    &&& 1 <= st.group_depth <= usize::MAX
    &&& 0 <= st.cap <= usize::MAX
    &&& 0 <= st.depth <= usize::MAX
    &&& st.buf.len() <= st.cap
    &&& (forall|i: int| 0 <= i < st.path.len() ==> (#[trigger] st.path[i]).valid(st.buf))
    &&& (match st.data {
        Some(rec) => rec.wf_rec(st.buf),
        None => true,
    })
    &&& (!st.done ==> (st.data is Some <==> st.depth >= st.group_depth))
    &&& (st.done ==> st.data is None)
    &&& (st.data is Some ==> st.path.len() == st.depth - (st.group_depth - 1))
    &&& (st.data is None ==> st.path.len() == 0)
}

/// One step from a well-formed state yields a well-formed state, and an
/// emitted record's views are in range of the surviving buffer.
pub proof fn lemma_step_preserves_wf<D: Gather>(st: EngineV<D>, e: EventV)
    requires
        wf_st(st),
    ensures
        wf_st(step_spec(st, e).st),
        match step_spec(st, e).emit {
            Some(rec) => rec.wf_rec(step_spec(st, e).st.buf),
            None => true,
        },
{
    if st.done {
    } else {
        match e {
            EventV::Open { name, attrs } => {
                if st.depth >= usize::MAX {
                } else {
                    let d = st.depth + 1;
                    if d < st.group_depth {
                    } else {
                        let buf0 = if st.data is None { Seq::<u8>::empty() } else { st.buf };
                        let path0 = if st.data is None {
                            Seq::<FieldView>::empty()
                        } else {
                            st.path
                        };
                        let data0 = match st.data {
                            Some(rec) => rec,
                            None => D::init_rec(),
                        };
                        if buf0.len() + name.len() + attrs_size(attrs) > st.cap {
                        } else {
                            let nv = FieldView {
                                off: buf0.len() as usize,
                                len: name.len() as usize,
                            };
                            let b1 = buf0 + name;
                            let p1 = path0.push(nv);
                            let ia = intern_attrs(b1, attrs);
                            lemma_intern_attrs_props(b1, attrs);
                            if st.data is None {
                                D::lemma_init_wf(ia.0);
                            } else {
                                assert(ia.0.subrange(0, b1.len() as int) == b1);
                                assert(b1.subrange(0, buf0.len() as int) =~= buf0);
                                assert(ia.0.subrange(0, buf0.len() as int) =~= buf0) by {
                                    assert(forall|k: int|
                                        0 <= k < buf0.len() ==> ia.0.subrange(
                                            0,
                                            b1.len() as int,
                                        )[k] == ia.0[k]);
                                }
                                data0.lemma_wf_mono(buf0, ia.0);
                            }
                            data0.lemma_attr_step_wf(ia.0, p1, ia.1);
                            assert(forall|i: int|
                                0 <= i < p1.len() ==> (#[trigger] p1[i]).valid(ia.0));
                        }
                    }
                }
            },
            EventV::Text { bytes } => {
                match st.data {
                    None => {},
                    Some(rec) => {
                        if st.buf.len() + bytes.len() > st.cap {
                        } else {
                            let tv = FieldView {
                                off: st.buf.len() as usize,
                                len: bytes.len() as usize,
                            };
                            let b1 = st.buf + bytes;
                            assert(b1.subrange(0, st.buf.len() as int) =~= st.buf);
                            rec.lemma_wf_mono(st.buf, b1);
                            rec.lemma_text_step_wf(b1, st.path, tv);
                        }
                    },
                }
            },
            EventV::Close => {},
            EventV::Eof => {},
            EventV::Other => {},
            EventV::Error => {},
        }
    }
}

/// The initial engine state for one stream.
pub open spec fn init_stv<D>(group_depth: int, cap: int) -> EngineV<D> {
    EngineV {
        group_depth,
        cap,
        depth: 0,
        buf: Seq::<u8>::empty(),
        path: Seq::<FieldView>::empty(),
        data: None,
        done: false,
    }
}

/// Outcome of running the engine over a whole event sequence: the records
/// emitted in order, the final state, and the first error if one stopped
/// the run.
pub struct RunOutV<D> {
    pub emits: Seq<D>,
    pub st: EngineV<D>,
    pub err: Option<ExtractError>,
}

pub open spec fn emit_seq<D>(e: Option<D>) -> Seq<D> {
    match e {
        Some(rec) => seq![rec],
        None => Seq::<D>::empty(),
    }
}

/// Fold `step_spec` over an event sequence, stopping at the first error.
pub open spec fn run_spec<D: Gather>(st: EngineV<D>, es: Seq<EventV>) -> RunOutV<D>
    decreases es.len(),
{
    if es.len() == 0 {
        RunOutV { emits: Seq::<D>::empty(), st, err: None }
    } else {
        let so = step_spec(st, es[0]);
        if so.err is Some {
            RunOutV { emits: Seq::<D>::empty(), st: so.st, err: so.err }
        } else {
            let rest = run_spec(so.st, es.drop_first());
            RunOutV { emits: emit_seq(so.emit) + rest.emits, st: rest.st, err: rest.err }
        }
    }
}

/// A step that raises an error emits no record.
pub proof fn lemma_step_no_emit_on_err<D: Gather>(st: EngineV<D>, e: EventV)
    ensures
        step_spec(st, e).err is Some ==> step_spec(st, e).emit is None,
{
}

/// Extending an error-free run by one event appends exactly one step.
pub proof fn lemma_run_snoc<D: Gather>(st: EngineV<D>, es: Seq<EventV>, e: EventV)
    requires
        run_spec(st, es).err is None,
    ensures
        run_spec(st, es.push(e)).st == step_spec(run_spec(st, es).st, e).st,
        run_spec(st, es.push(e)).err == step_spec(run_spec(st, es).st, e).err,
        run_spec(st, es.push(e)).emits =~= run_spec(st, es).emits + emit_seq(
            step_spec(run_spec(st, es).st, e).emit,
        ),
    decreases es.len(),
{
    let es2 = es.push(e);
    if es.len() == 0 {
        assert(es2[0] == e);
        assert(es2.drop_first() =~= Seq::<EventV>::empty());
        let so = step_spec(st, e);
        lemma_step_no_emit_on_err(st, e);
        if so.err is Some {
            assert(run_spec(st, es2).emits =~= run_spec(st, es).emits + emit_seq(so.emit));
        } else {
            assert(run_spec(so.st, es2.drop_first()).emits == Seq::<D>::empty());
            assert(run_spec(so.st, es2.drop_first()).st == so.st);
            assert(run_spec(st, es2).emits =~= run_spec(st, es).emits + emit_seq(so.emit));
        }
    } else {
        let so0 = step_spec(st, es[0]);
        assert(es2[0] == es[0]);
        assert(es2.drop_first() =~= es.drop_first().push(e));
        assert(so0.err is None);
        lemma_run_snoc(so0.st, es.drop_first(), e);
        let r1 = run_spec(so0.st, es.drop_first());
        let so = step_spec(r1.st, e);
        lemma_step_no_emit_on_err(r1.st, e);
        assert(run_spec(st, es2).st == run_spec(so0.st, es2.drop_first()).st);
        assert(run_spec(st, es2).emits =~= emit_seq(so0.emit) + run_spec(
            so0.st,
            es.drop_first().push(e),
        ).emits);
        assert(run_spec(st, es2).emits =~= run_spec(st, es).emits + emit_seq(so.emit));
    }
}

/// The executable record boundary engine; each `process_event` call
/// computes exactly one `step_spec` transition.
pub struct RecordEngine<D: Gather> {
    group_depth: usize,
    depth: usize,
    buf: SharedBuf,
    path: PathStack,
    data: Option<D>,
    done: bool,
}

impl<D: Gather> RecordEngine<D> {
    /// The mathematical state this engine is in.
    pub closed spec fn stv(&self) -> EngineV<D> {
        EngineV {
            group_depth: self.group_depth as int,
            cap: self.buf.capacity() as int,
            depth: self.depth as int,
            buf: self.buf@,
            path: self.path@,
            data: self.data,
            done: self.done,
        }
    }

    pub open spec fn wf(&self) -> bool {
        wf_st(self.stv())
    }

    pub fn new(group_depth: usize, capacity: usize) -> (r: RecordEngine<D>)
        requires
            group_depth >= 1,
        ensures
            r.wf(),
            r.stv() == (EngineV::<D> {
                group_depth: group_depth as int,
                cap: capacity as int,
                depth: 0,
                buf: Seq::<u8>::empty(),
                path: Seq::<FieldView>::empty(),
                data: None,
                done: false,
            }),
    {
        RecordEngine {
            group_depth,
            depth: 0,
            buf: SharedBuf::new(capacity),
            path: PathStack::new(),
            data: None,
            done: false,
        }
    }

    /// The shared read buffer, for resolving the views of an emitted record.
    pub fn buffer(&self) -> (r: &SharedBuf)
        ensures
            r@ == self.stv().buf,
            r.capacity() == self.stv().cap,
    {
        &self.buf
    }

    pub fn is_done(&self) -> (r: bool)
        ensures
            r == self.stv().done,
    {
        self.done
    }

    /// Enter the permanent end state: drop the buffer, the path and any
    /// partial record.
    fn halt(&mut self)
        requires
            old(self).stv().group_depth >= 1,
        ensures
            final(self).stv() == halted(old(self).stv()),
            final(self).wf(),
    {
        self.buf.clear();
        self.path.clear();
        self.data = None;
        self.done = true;
    }

    /// Would interning this element-open event stay within capacity?
    fn event_fits(&self, o: &OpenEvent) -> (r: bool)
        requires
            self.buf.wf(),
        ensures
            r == (self.stv().buf.len() + o.name@.len() + attrs_size(
                o.attrs@.map_values(|a: AttrPair| a@),
            ) <= self.stv().cap),
    {
        let ghost av = o.attrs@.map_values(|a: AttrPair| a@);
        let cap = self.buf.capacity_bytes();
        let mut acc = self.buf.len();
        if o.name.len() > cap - acc {
            return false;
        }
        acc = acc + o.name.len();
        let n = o.attrs.len();
        let mut i: usize = 0;
        proof {
            assert(av.skip(0) =~= av);
        }
        while i < n
            invariant
                i <= n,
                n == o.attrs@.len(),
                av == o.attrs@.map_values(|a: AttrPair| a@),
                acc <= cap,
                cap == self.stv().cap,
                acc + attrs_size(av.skip(i as int)) == self.stv().buf.len() + o.name@.len()
                    + attrs_size(av),
            decreases n - i,
        {
            let a = &o.attrs[i];
            proof {
                assert(av.skip(i as int)[0] == av[i as int]);
                assert(av[i as int] == o.attrs@[i as int]@);
                assert(av.skip(i as int).drop_first() =~= av.skip(i as int + 1));
            }
            if a.key.len() > cap - acc {
                return false;
            }
            acc = acc + a.key.len();
            if a.value.len() > cap - acc {
                return false;
            }
            acc = acc + a.value.len();
            i += 1;
        }
        proof {
            assert(av.skip(n as int).len() == 0);
        }
        true
    }

    /// Handle an element-open event.
    fn do_open(&mut self, o: &OpenEvent) -> (r: Result<Option<D>, ExtractError>)
        requires
            old(self).wf(),
            !old(self).stv().done,
        ensures
            final(self).wf(),
            ({
                let so = step_open(
                    old(self).stv(),
                    o.name@,
                    o.attrs@.map_values(|a: AttrPair| a@),
                );
                &&& final(self).stv() == so.st
                &&& match r {
                    Ok(opt) => so.err is None && opt == so.emit,
                    Err(er) => so.err == Some(er) && so.emit is None,
                }
            }),
    {
        let ghost st0 = self.stv();
        let ghost av = o.attrs@.map_values(|a: AttrPair| a@);
        proof {
            lemma_step_preserves_wf(st0, EventV::Open { name: o.name@, attrs: av });
        }
        if self.depth == usize::MAX {
            self.halt();
            return Err(ExtractError::Malformed);
        }
        let d = self.depth + 1;
        if d < self.group_depth {
            self.depth = d;
            return Ok(None);
        }
        if self.data.is_none() {
            self.buf.clear();
            self.path.clear();
            self.data = Some(D::new());
        }
        let ghost data0 = self.data.unwrap();
        if !self.event_fits(o) {
            self.halt();
            return Err(ExtractError::CapacityExceeded);
        }
        let ghost buf0 = self.buf@;
        let nv = match self.buf.append(o.name.as_slice()) {
            Ok(v) => v,
            Err(_) => {
                proof {
                    assert(false);
                }
                FieldView { off: 0, len: 0 }
            },
        };
        self.path.push(nv);
        let ghost b1 = self.buf@;
        let ghost p1 = self.path@;
        let ghost dep0 = self.depth;
        let ghost dn0 = self.done;
        let mut avs: Vec<AttrView> = Vec::new();
        let n = o.attrs.len();
        let mut i: usize = 0;
        proof {
            assert(av.skip(0) =~= av);
            lemma_intern_attrs_props(b1, av);
        }
        while i < n
            invariant
                i <= n,
                n == o.attrs@.len(),
                av == o.attrs@.map_values(|a: AttrPair| a@),
                self.buf.wf(),
                self.buf.capacity() == st0.cap,
                b1.len() <= self.buf@.len(),
                self.buf@.len() + attrs_size(av.skip(i as int)) <= st0.cap,
                intern_attrs(b1, av).0 == intern_attrs(self.buf@, av.skip(i as int)).0,
                intern_attrs(b1, av).1 =~= avs@ + intern_attrs(self.buf@, av.skip(i as int)).1,
                self.path@ == p1,
                self.data == Some(data0),
                self.depth == dep0,
                self.done == dn0,
                self.group_depth == st0.group_depth,
            decreases n - i,
        {
            let a = &o.attrs[i];
            proof {
                assert(av.skip(i as int)[0] == av[i as int]);
                assert(av[i as int] == o.attrs@[i as int]@);
                assert(av.skip(i as int).drop_first() =~= av.skip(i as int + 1));
            }
            let kv = match self.buf.append(a.key.as_slice()) {
                Ok(v) => v,
                Err(_) => {
                    proof {
                        assert(false);
                    }
                    FieldView { off: 0, len: 0 }
                },
            };
            let vv = match self.buf.append(a.value.as_slice()) {
                Ok(v) => v,
                Err(_) => {
                    proof {
                        assert(false);
                    }
                    FieldView { off: 0, len: 0 }
                },
            };
            avs.push(AttrView { key: kv, value: vv });
            i += 1;
        }
        proof {
            assert(av.skip(n as int).len() == 0);
            assert(intern_attrs(self.buf@, av.skip(n as int)).0 == self.buf@);
            assert(avs@ + intern_attrs(self.buf@, av.skip(n as int)).1 =~= avs@);
            assert(self.buf@ == intern_attrs(b1, av).0);
            assert(avs@ == intern_attrs(b1, av).1);
            lemma_intern_attrs_props(b1, av);
            assert(forall|k: int| 0 <= k < p1.len() ==> (#[trigger] p1[k]).valid(self.buf@)) by {
                assert(forall|k: int| 0 <= k < p1.len() ==> (#[trigger] p1[k]).valid(b1));
            }
        }
        let mut rec = match self.data.take() {
            Some(rec) => rec,
            None => {
                proof {
                    assert(false);
                }
                D::new()
            },
        };
        rec.gather_attr(&self.buf, &self.path, &avs);
        self.data = Some(rec);
        self.depth = d;
        Ok(None)
    }

    /// Handle a text event.  Text below the group depth arrives while no
    /// record is open and is ignored: no path template can match there.
    fn do_text(&mut self, t: &Vec<u8>) -> (r: Result<Option<D>, ExtractError>)
        requires
            old(self).wf(),
            !old(self).stv().done,
        ensures
            final(self).wf(),
            ({
                let so = step_text(old(self).stv(), t@);
                &&& final(self).stv() == so.st
                &&& match r {
                    Ok(opt) => so.err is None && opt == so.emit,
                    Err(er) => so.err == Some(er) && so.emit is None,
                }
            }),
    {
        let ghost st0 = self.stv();
        proof {
            lemma_step_preserves_wf(st0, EventV::Text { bytes: t@ });
        }
        if self.data.is_some() {
            let cap = self.buf.capacity_bytes();
            let used = self.buf.len();
            if t.len() > cap - used {
                self.halt();
                return Err(ExtractError::CapacityExceeded);
            }
            let ghost buf0 = self.buf@;
            let tv = match self.buf.append(t.as_slice()) {
                Ok(v) => v,
                Err(_) => {
                    proof {
                        assert(false);
                    }
                    FieldView { off: 0, len: 0 }
                },
            };
            proof {
                assert(forall|k: int|
                    0 <= k < self.path@.len() ==> (#[trigger] self.path@[k]).valid(self.buf@)) by {
                    assert(forall|k: int|
                        0 <= k < st0.path.len() ==> (#[trigger] st0.path[k]).valid(st0.buf));
                }
            }
            let mut rec = match self.data.take() {
                Some(rec) => rec,
                None => {
                    proof {
                        assert(false);
                    }
                    D::new()
                },
            };
            rec.gather_text(&self.buf, &self.path, tv);
            self.data = Some(rec);
        }
        Ok(None)
    }

    /// Handle an element-close event.
    fn do_close(&mut self) -> (r: Result<Option<D>, ExtractError>)
        requires
            old(self).wf(),
            !old(self).stv().done,
        ensures
            final(self).wf(),
            ({
                let so = step_close(old(self).stv());
                &&& final(self).stv() == so.st
                &&& match r {
                    Ok(opt) => so.err is None && opt == so.emit,
                    Err(er) => so.err == Some(er) && so.emit is None,
                }
            }),
    {
        proof {
            lemma_step_preserves_wf(self.stv(), EventV::Close);
        }
        if self.depth == 0 {
            self.halt();
            return Err(ExtractError::DepthUnderflow);
        }
        self.depth = self.depth - 1;
        self.path.pop();
        if self.depth == self.group_depth - 1 && self.data.is_some() {
            let rec = match self.data.take() {
                Some(rec) => rec,
                None => {
                    proof {
                        assert(false);
                    }
                    D::new()
                },
            };
            return Ok(Some(rec));
        }
        Ok(None)
    }

    /// Process one parse event: advance depth and path, route the event to
    /// the open record, and emit the record when its boundary is reached.
    /// Computes exactly `step_spec` of the previous state and the event.
    pub fn process_event(&mut self, e: &XmlEvent) -> (r: Result<Option<D>, ExtractError>)
        requires
            old(self).wf(),
        ensures
            final(self).wf(),
            ({
                let so = step_spec(old(self).stv(), e@);
                &&& final(self).stv() == so.st
                &&& match r {
                    Ok(opt) => so.err is None && opt == so.emit,
                    Err(er) => so.err == Some(er) && so.emit is None,
                }
            }),
            match r {
                Ok(Some(rec)) => rec.wf_rec(final(self).stv().buf),
                _ => true,
            },
    {
        proof {
            lemma_step_preserves_wf(self.stv(), e@);
        }
        if self.done {
            return Ok(None);
        }
        match e {
            XmlEvent::Open(o) => self.do_open(o),
            XmlEvent::Text(t) => self.do_text(t),
            XmlEvent::Close => self.do_close(),
            XmlEvent::Eof => {
                self.halt();
                Ok(None)
            },
            XmlEvent::Other => Ok(None),
            XmlEvent::Error => {
                self.halt();
                Err(ExtractError::Malformed)
            },
        }
    }
}

} // verus!
