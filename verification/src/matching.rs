//! Exact-path and attribute matching over buffer views.
//!
//! Path templates are fixed element-name sequences compared for exact
//! equality against the current path stack; attribute capture takes the
//! first attribute whose key equals the wanted name, as the tokenizer
//! delivered them, in document order.

use vstd::prelude::*;
use vstd::slice::slice_index_get;
use crate::buffer::{FieldView, SharedBuf};
use crate::event::AttrView;
use crate::path::PathStack;

verus! {

/// The element names the path stack currently denotes, innermost last.
pub open spec fn path_names(buf: Seq<u8>, path: Seq<FieldView>) -> Seq<Seq<u8>> {
    path.map_values(|v: FieldView| v.bytes_of(buf))
}

/// The value of the first attribute whose key is `key`, if any.
pub open spec fn attr_lookup(buf: Seq<u8>, attrs: Seq<AttrView>, key: Seq<u8>) -> Option<FieldView>
    decreases attrs.len(),
{
    if attrs.len() == 0 {
        None
    } else if attrs[0].key.bytes_of(buf) == key {
        Some(attrs[0].value)
    } else {
        attr_lookup(buf, attrs.drop_first(), key)
    }
}

/// A looked-up value comes from the attribute list, so it is in range
/// whenever every attribute is.
pub proof fn lemma_attr_lookup_valid(buf: Seq<u8>, attrs: Seq<AttrView>, key: Seq<u8>)
    requires
        forall|i: int| 0 <= i < attrs.len() ==> (#[trigger] attrs[i]).valid(buf),
    ensures
        match attr_lookup(buf, attrs, key) {
            Some(v) => v.valid(buf),
            None => true,
        },
    decreases attrs.len(),
{
    if attrs.len() == 0 {
    } else if attrs[0].key.bytes_of(buf) == key {
    } else {
        assert(forall|i: int|
            0 <= i < attrs.drop_first().len() ==> (#[trigger] attrs.drop_first()[i]).valid(buf));
        lemma_attr_lookup_valid(buf, attrs.drop_first(), key);
    }
}

pub fn bytes_eq(a: &[u8], b: &[u8]) -> (r: bool)
    ensures
        r == (a@ == b@),
{
    if a.len() != b.len() {
        return false;
    }
    let n = a.len();
    let mut i: usize = 0;
    while i < n
        invariant
            i <= n,
            n == a@.len(),
            a@.len() == b@.len(),
            forall|j: int| 0 <= j < i ==> a@[j] == b@[j],
        decreases n - i,
    {
        if *slice_index_get(a, i) != *slice_index_get(b, i) {
            return false;
        }
        i += 1;
    }
    proof {
        assert(a@ =~= b@);
    }
    true
}

/// Does the current path consist of exactly the one name `n0`?
pub fn path_matches1(buf: &SharedBuf, path: &PathStack, n0: &[u8]) -> (r: bool)
    requires
        path.valid(buf@),
    ensures
        r == (path_names(buf@, path@) == seq![n0@]),
{
    if path.len() != 1 {
        proof {
            assert(path_names(buf@, path@).len() != 1);
        }
        return false;
    }
    let r = bytes_eq(buf.view_bytes(path.get(0)), n0);
    proof {
        if r {
            assert(path_names(buf@, path@) =~= seq![n0@]);
        } else {
            assert(path_names(buf@, path@)[0] != seq![n0@][0]);
        }
    }
    r
}

/// Does the current path consist of exactly the names `n0`, `n1`?
pub fn path_matches2(buf: &SharedBuf, path: &PathStack, n0: &[u8], n1: &[u8]) -> (r: bool)
    requires
        path.valid(buf@),
    ensures
        r == (path_names(buf@, path@) == seq![n0@, n1@]),
{
    if path.len() != 2 {
        proof {
            assert(path_names(buf@, path@).len() != 2);
        }
        return false;
    }
    let r0 = bytes_eq(buf.view_bytes(path.get(0)), n0);
    let r1 = bytes_eq(buf.view_bytes(path.get(1)), n1);
    proof {
        if r0 && r1 {
            assert(path_names(buf@, path@) =~= seq![n0@, n1@]);
        } else if !r0 {
            assert(path_names(buf@, path@)[0] != seq![n0@, n1@][0]);
        } else {
            assert(path_names(buf@, path@)[1] != seq![n0@, n1@][1]);
        }
    }
    r0 && r1
}

/// Does the current path consist of exactly the names `n0`, `n1`, `n2`?
pub fn path_matches3(buf: &SharedBuf, path: &PathStack, n0: &[u8], n1: &[u8], n2: &[u8]) -> (r: bool)
    requires
        path.valid(buf@),
    ensures
        r == (path_names(buf@, path@) == seq![n0@, n1@, n2@]),
{
    if path.len() != 3 {
        proof {
            assert(path_names(buf@, path@).len() != 3);
        }
        return false;
    }
    let r0 = bytes_eq(buf.view_bytes(path.get(0)), n0);
    let r1 = bytes_eq(buf.view_bytes(path.get(1)), n1);
    let r2 = bytes_eq(buf.view_bytes(path.get(2)), n2);
    proof {
        if r0 && r1 && r2 {
            assert(path_names(buf@, path@) =~= seq![n0@, n1@, n2@]);
        } else if !r0 {
            assert(path_names(buf@, path@)[0] != seq![n0@, n1@, n2@][0]);
        } else if !r1 {
            assert(path_names(buf@, path@)[1] != seq![n0@, n1@, n2@][1]);
        } else {
            assert(path_names(buf@, path@)[2] != seq![n0@, n1@, n2@][2]);
        }
    }
    r0 && r1 && r2
}

/// First attribute whose key equals `key`, scanned in document order.
pub fn find_attr(buf: &SharedBuf, attrs: &Vec<AttrView>, key: &[u8]) -> (r: Option<FieldView>)
    requires
        forall|i: int| 0 <= i < attrs@.len() ==> (#[trigger] attrs@[i]).valid(buf@),
    ensures
        r == attr_lookup(buf@, attrs@, key@),
{
    let n = attrs.len();
    let mut i: usize = 0;
    proof {
        assert(attrs@.skip(0) =~= attrs@);
    }
    while i < n
        invariant
            i <= n,
            n == attrs@.len(),
            forall|k: int| 0 <= k < attrs@.len() ==> (#[trigger] attrs@[k]).valid(buf@),
            attr_lookup(buf@, attrs@, key@) == attr_lookup(buf@, attrs@.skip(i as int), key@),
        decreases n - i,
    {
        let a = attrs[i];
        proof {
            assert(attrs@.skip(i as int)[0] == attrs@[i as int]);
        }
        if bytes_eq(buf.view_bytes(a.key), key) {
            return Some(a.value);
        }
        proof {
            assert(attrs@.skip(i as int).drop_first() =~= attrs@.skip(i + 1));
        }
        i += 1;
    }
    None
}

} // verus!
