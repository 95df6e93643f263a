//! The laws of the extractor, stated and proved over the spec-level
//! machine that the executable code is verified to compute.

use vstd::prelude::*;
use crate::ExtractError;
use crate::buffer::FieldView;
use crate::engine::{attrs_size, intern_attrs, run_spec, step_open, step_spec, stored_size,
    wf_st, EngineV};
use crate::event::{AttrPairV, AttrView, EventV};
use crate::gather::Gather;
use crate::matching::path_names;
use crate::schema::{nm_descriptor, nm_design, nm_experiment, nm_study, nm_study_abstract,
    nm_study_ref, nm_study_title, nm_sample_descriptor, Experiment, Study};
use crate::stream::records_of;

verus! {

/// The path stack mirrors the well-nested element structure: an
/// element-open at or above the group depth pushes exactly the element
/// name, an element-close pops, and the stack is empty the moment a record
/// is emitted.
pub proof fn lemma_path_mirrors<D: Gather>(st: EngineV<D>, e: EventV)
    requires
        wf_st(st),
        !st.done,
        step_spec(st, e).err is None,
    ensures
        (match e {
            EventV::Open { name, attrs } => st.depth + 1 >= st.group_depth ==> {
                let so = step_spec(st, e);
                &&& so.st.path.len() == (if st.data is Some {
                    st.path.len() + 1
                } else {
                    1
                })
                &&& so.st.path.last().bytes_of(so.st.buf) == name
                &&& (st.data is Some ==> so.st.path.drop_last() == st.path)
            },
            _ => true,
        }),
        e is Close ==> step_spec(st, e).st.path == (if st.path.len() > 0 {
            st.path.drop_last()
        } else {
            st.path
        }),
        step_spec(st, e).emit is Some ==> step_spec(st, e).st.path.len() == 0,
{
    match e {
        EventV::Open { name, attrs } => {
            if st.depth + 1 >= st.group_depth {
                let buf0 = if st.data is None {
                    Seq::<u8>::empty()
                } else {
                    st.buf
                };
                let path0 = if st.data is None {
                    Seq::<FieldView>::empty()
                } else {
                    st.path
                };
                let nv = FieldView { off: buf0.len() as usize, len: name.len() as usize };
                let b1 = buf0 + name;
                crate::engine::lemma_intern_attrs_props(b1, attrs);
                let so = step_spec(st, e);
                assert(buf0.len() + name.len() + attrs_size(attrs) <= st.cap);
                assert(nv.off == buf0.len());
                assert(nv.len == name.len());
                assert(so.st.path == path0.push(nv));
                assert(so.st.path.last() == nv);
                assert(so.st.buf.subrange(0, b1.len() as int) == b1);
                assert(forall|k: int|
                    0 <= k < b1.len() ==> so.st.buf[k] == #[trigger] b1[k]) by {
                    assert(forall|k: int|
                        0 <= k < b1.len() ==> so.st.buf.subrange(0, b1.len() as int)[k]
                            == so.st.buf[k]);
                }
                assert(forall|k: int|
                    0 <= k < name.len() ==> b1[buf0.len() + k] == #[trigger] name[k]);
                assert(forall|k: int|
                    0 <= k < name.len() ==> so.st.buf[buf0.len() + k] == #[trigger] name[k]);
                assert(nv.bytes_of(so.st.buf) =~= name);
                if st.data is Some {
                    assert(so.st.path.drop_last() =~= st.path);
                }
            }
        },
        _ => {},
    }
}

/// A record is emitted by a step if and only if the event is an
/// element-close that returns the depth from exactly the group depth to
/// one below it.  In particular end-of-input never emits: an unterminated
/// record yields no output.
pub proof fn lemma_emit_iff<D: Gather>(st: EngineV<D>, e: EventV)
    requires
        wf_st(st),
    ensures
        step_spec(st, e).emit is Some <==> (!st.done && e is Close && st.depth
            == st.group_depth),
{
}

/// Re-running the extractor on byte-identical input yields identical
/// records in the same order: the extracted record sequence is a function
/// of the input bytes, the group depth and the buffer capacity alone.
pub proof fn lemma_rerun_identical<D: Gather>(i1: Seq<u8>, i2: Seq<u8>, group_depth: int, cap: int)
    requires
        i1 == i2,
    ensures
        records_of::<D>(i1, group_depth, cap) == records_of::<D>(i2, group_depth, cap),
{
}

/// Runs compose: an error-free run over a first window of events followed
/// by a run over the rest behaves like one run over the whole sequence.
/// Successive `next` calls each cover one consumed window, so together they
/// emit exactly the records of the whole event stream, in order.
pub proof fn lemma_run_concat<D: Gather>(st: EngineV<D>, es1: Seq<EventV>, es2: Seq<EventV>)
    requires
        run_spec(st, es1).err is None,
    ensures
        run_spec(st, es1 + es2).st == run_spec(run_spec(st, es1).st, es2).st,
        run_spec(st, es1 + es2).err == run_spec(run_spec(st, es1).st, es2).err,
        run_spec(st, es1 + es2).emits =~= run_spec(st, es1).emits + run_spec(
            run_spec(st, es1).st,
            es2,
        ).emits,
    decreases es1.len(),
{
    if es1.len() == 0 {
        assert(es1 + es2 =~= es2);
    } else {
        let so = step_spec(st, es1[0]);
        assert((es1 + es2)[0] == es1[0]);
        assert((es1 + es2).drop_first() =~= es1.drop_first() + es2);
        assert(so.err is None);
        lemma_run_concat(so.st, es1.drop_first(), es2);
    }
}

/// Total buffer bytes a sequence of events stores.
pub open spec fn stored_total(es: Seq<EventV>) -> nat
    decreases es.len(),
{
    if es.len() == 0 {
        0
    } else {
        stored_size(es[0]) + stored_total(es.drop_first())
    }
}

/// The capacity property, within one record: a run that completes no
/// record and whose events store no more bytes than the capacity left in
/// the buffer never raises the capacity error.  (That crossing the
/// capacity deterministically raises it is pinned down by `step_spec`
/// itself: the step fails exactly when the bytes to intern no longer fit.)
pub proof fn lemma_capacity_within<D: Gather>(st: EngineV<D>, es: Seq<EventV>)
    requires
        wf_st(st),
        run_spec(st, es).emits.len() == 0,
        st.buf.len() + stored_total(es) <= st.cap,
    ensures
        run_spec(st, es).err != Some(ExtractError::CapacityExceeded),
    decreases es.len(),
{
    if es.len() == 0 {
    } else {
        let so = step_spec(st, es[0]);
        crate::engine::lemma_step_preserves_wf(st, es[0]);
        if so.err is Some {
            assert(so.err != Some(ExtractError::CapacityExceeded));
        } else {
            assert(run_spec(so.st, es.drop_first()).emits.len() == 0);
            assert(so.st.cap == st.cap);
            match es[0] {
                EventV::Open { name, attrs } => {
                    if !st.done && st.depth < usize::MAX && st.depth + 1 >= st.group_depth {
                        let buf0 = if st.data is None {
                            Seq::<u8>::empty()
                        } else {
                            st.buf
                        };
                        let b1 = buf0 + name;
                        crate::engine::lemma_intern_attrs_props(b1, attrs);
                        assert(so == step_open(st, name, attrs));
                        assert(so.st.buf == intern_attrs(b1, attrs).0);
                        assert(so.st.buf.len() == buf0.len() + name.len() + attrs_size(attrs));
                        assert(buf0.len() <= st.buf.len());
                    }
                },
                _ => {},
            }
            assert(so.st.buf.len() + stored_total(es.drop_first()) <= so.st.cap);
            lemma_capacity_within(so.st, es.drop_first());
        }
    }
}

/// Field absence, Experiment: a fresh record has every field absent, a
/// capture step leaves a field untouched unless its own path template
/// matches exactly, and text never touches an Experiment.  Together with
/// the engine starting every record from the fresh record, a field whose
/// template never matches within a record is absent in the output, never a
/// stale value from a prior record.
pub proof fn lemma_experiment_field_absence(
    pre: Experiment,
    buf: Seq<u8>,
    path: Seq<FieldView>,
    attrs: Seq<AttrView>,
    text: FieldView,
)
    ensures
        Experiment::init_rec().id is None,
        Experiment::init_rec().study_ref is None,
        Experiment::init_rec().sample_ref is None,
        path_names(buf, path) != seq![nm_experiment()] ==> pre.attr_step(buf, path, attrs).id
            == pre.id,
        path_names(buf, path) != seq![nm_experiment(), nm_study_ref()] ==> pre.attr_step(
            buf,
            path,
            attrs,
        ).study_ref == pre.study_ref,
        path_names(buf, path) != seq![nm_experiment(), nm_design(), nm_sample_descriptor()]
            ==> pre.attr_step(buf, path, attrs).sample_ref == pre.sample_ref,
        pre.text_step(buf, path, text) == pre,
{
}

/// Field absence, Study: the same law for the Study schema.
pub proof fn lemma_study_field_absence(
    pre: Study,
    buf: Seq<u8>,
    path: Seq<FieldView>,
    attrs: Seq<AttrView>,
    text: FieldView,
)
    ensures
        Study::init_rec().id is None,
        Study::init_rec().alias is None,
        Study::init_rec().title is None,
        Study::init_rec().abstract_text is None,
        path_names(buf, path) != seq![nm_study()] ==> pre.attr_step(buf, path, attrs).id == pre.id
            && pre.attr_step(buf, path, attrs).alias == pre.alias,
        pre.attr_step(buf, path, attrs).title == pre.title,
        pre.attr_step(buf, path, attrs).abstract_text == pre.abstract_text,
        path_names(buf, path) != seq![nm_study(), nm_descriptor(), nm_study_title()]
            ==> pre.text_step(buf, path, text).title == pre.title,
        path_names(buf, path) != seq![nm_study(), nm_descriptor(), nm_study_abstract()]
            ==> pre.text_step(buf, path, text).abstract_text == pre.abstract_text,
        pre.text_step(buf, path, text).id == pre.id,
        pre.text_step(buf, path, text).alias == pre.alias,
{
}

/// A record that begins while no record is open starts from the fresh
/// record: the first capture acts on `init_rec`, over a buffer holding
/// only this record's bytes, so nothing of a prior record can leak in.
pub proof fn lemma_fresh_record<D: Gather>(st: EngineV<D>, name: Seq<u8>, attrs: Seq<AttrPairV>)
    requires
        wf_st(st),
        !st.done,
        st.data is None,
        st.depth + 1 >= st.group_depth,
        step_open(st, name, attrs).err is None,
    ensures
        ({
            let nv = FieldView { off: 0, len: name.len() as usize };
            let ia = intern_attrs(name, attrs);
            step_open(st, name, attrs).st.data == Some(
                D::init_rec().attr_step(ia.0, seq![nv], ia.1),
            )
        }),
{
    let nv = FieldView { off: 0, len: name.len() as usize };
    assert(Seq::<u8>::empty() + name =~= name);
    assert(Seq::<FieldView>::empty().push(nv) =~= seq![nv]);
}

} // verus!
