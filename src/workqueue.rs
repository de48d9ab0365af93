//! The queue of derivations waiting to be checked.
//!
//! Workers on several threads share one queue; the caller guards it with a
//! lock and never holds the lock across a build.
use vstd::prelude::*;
use rand::seq::SliceRandom;
use crate::text::views;

verus! {

/// Relies on `rand::seq::SliceRandom::shuffle` with the thread-local
/// generator: it only swaps elements, so the result is a permutation of the
/// input.
#[verifier::external_body]
fn shuffle(v: &mut Vec<String>)
    ensures
        views(final(v)@).to_multiset() == views(old(v)@).to_multiset(),
{
    v.shuffle(&mut rand::thread_rng())
}

/// Derivation paths waiting to be checked: `push` adds at the tail and
/// `next` takes from the tail.
#[derive(Clone, Debug)]
pub struct WorkQueue {
    queue: Vec<String>,
}

impl View for WorkQueue {
    type V = Seq<Seq<char>>;

    closed spec fn view(&self) -> Seq<Seq<char>> {
        views(self.queue@)
    }
}

impl WorkQueue {
    /// A queue holding `to_build`, in the given order.
    pub fn new(to_build: Vec<String>) -> (r: WorkQueue)
        ensures
            r@ == views(to_build@),
    {
        WorkQueue { queue: to_build }
    }

    /// A queue holding `to_build` in random order, so that related work is
    /// spread across workers.
    pub fn shuffled(to_build: Vec<String>) -> (r: WorkQueue)
        ensures
            r@.to_multiset() == views(to_build@).to_multiset(),
    {
        let mut q = to_build;
        shuffle(&mut q);
        WorkQueue { queue: q }
    }

    pub fn push(&mut self, path: String)
        ensures
            final(self)@ == old(self)@.push(path@),
    {
        self.queue.push(path);
        assert(views(self.queue@) =~= views(old(self).queue@).push(path@));
    }

    /// Takes the derivation at the tail; `None` when there is no more work.
    pub fn next(&mut self) -> (r: Option<String>)
        ensures
            old(self)@.len() == 0 ==> r is None && final(self)@ == old(self)@,
            old(self)@.len() > 0 ==> (r matches Some(p) && p@ == old(self)@.last() && final(self)@
                == old(self)@.drop_last()),
    {
        let r = self.queue.pop();
        proof {
            if old(self).queue@.len() > 0 {
                assert(views(self.queue@) =~= views(old(self).queue@).drop_last());
            }
        }
        r
    }

    pub fn len(&self) -> (r: usize)
        ensures
            r == self@.len(),
    {
        self.queue.len()
    }

    pub fn is_empty(&self) -> (r: bool)
        ensures
            r <==> self@.len() == 0,
    {
        self.queue.len() == 0
    }
}

} // verus!
