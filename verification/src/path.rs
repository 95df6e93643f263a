//! The path stack: the ordered sequence of element-name views that marks the
//! current position in the XML tree.
//!
//! Names are pushed on element-open and popped on element-close; each entry
//! is a zero-copy view into the shared read buffer.

use vstd::prelude::*;
use crate::buffer::FieldView;

verus! {

/// Ordered sequence of element-name views, top of the stack last.
pub struct PathStack {
    entries: Vec<FieldView>,
}

impl View for PathStack {
    type V = Seq<FieldView>;

    closed spec fn view(&self) -> Seq<FieldView> {
        self.entries@
    }
}

impl PathStack {
    /// Every entry lies within a buffer holding `buf`.
    pub open spec fn valid(self, buf: Seq<u8>) -> bool {
        forall|i: int| 0 <= i < self@.len() ==> (#[trigger] self@[i]).valid(buf)
    }

    pub fn new() -> (r: PathStack)
        ensures
            r@ == Seq::<FieldView>::empty(),
    {
        PathStack { entries: Vec::new() }
    }

    pub fn len(&self) -> (r: usize)
        ensures
            r == self@.len(),
    {
        self.entries.len()
    }

    pub fn get(&self, i: usize) -> (r: FieldView)
        requires
            i < self@.len(),
        ensures
            r == self@[i as int],
    {
        self.entries[i]
    }

    pub fn push(&mut self, v: FieldView)
        ensures
            final(self)@ == old(self)@.push(v),
    {
        self.entries.push(v);
    }

    /// Remove the innermost name; on an already empty stack this is a no-op,
    /// mirroring closes that arrive below the tracked window.
    pub fn pop(&mut self)
        ensures
            final(self)@ == if old(self)@.len() > 0 { old(self)@.drop_last() } else { old(self)@ },
    {
        if self.entries.len() > 0 {
            self.entries.pop();
        }
    }

    pub fn clear(&mut self)
        ensures
            final(self)@ == Seq::<FieldView>::empty(),
    {
        self.entries.clear();
    }
}

} // verus!
