//! Small helpers shared by the scene types.
use std::rc::Rc;
use vstd::prelude::*;

verus! {

/// Hands out identity keys for shared materials and textures: every key it gives is new.
pub struct KeySource {
    pub next: u64,
}

impl KeySource {
    /// A source whose first key is 0.
    pub fn new() -> (r: Self)
        ensures
            r.next == 0,
    {
        KeySource { next: 0 }
    }

    /// The next unused key.
    pub fn fresh(&mut self) -> (k: u64)
        requires
            old(self).next < u64::MAX,
        ensures
            k == old(self).next,
            final(self).next == old(self).next + 1,
    {
        let k = self.next;
        self.next = self.next + 1;
        k
    }
}

/// `Rc::clone` from std: another pointer to the same allocation, which holds the same
/// value. The contract claims that the copy's value equals the original's.
#[verifier::external_body]
pub(crate) fn share_rc<T>(r: &Rc<T>) -> (c: Rc<T>)
    ensures
        c == *r,
{
    Rc::clone(r)
}

} // verus!
