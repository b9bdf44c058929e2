//! The dispatch queue: an unbounded first-in-first-out queue of
//! scripts, fed by the monitor and drained by a single worker.
//! Appending never fails and never waits on the worker, so a slow or
//! hung script cannot hold up log ingestion.

use vstd::prelude::*;

use crate::script::Script;

verus! {

/// The single-consumer execution queue for accepted units of work.
pub struct Launcher {
    queue: Vec<Script>,
}

impl Launcher {
    /// The queued scripts, front first.
    pub closed spec fn pending(self) -> Seq<Script> {
        self.queue@
    }

    pub fn new() -> (r: Launcher)
        ensures
            r.pending() == Seq::<Script>::empty(),
    {
        let r = Launcher { queue: Vec::new() };
        proof {
            assert(r.pending() =~= Seq::<Script>::empty());
        }
        r
    }

    /// Append a script to the execution queue.  Appending is total: it
    /// succeeds for every script and every queue depth, without
    /// waiting on the consumer.
    pub fn add(&mut self, script: Script)
        ensures
            final(self).pending() == old(self).pending().push(script),
    {
        self.queue.push(script);
    }

    /// Hand the worker the script that has waited longest, if any.
    pub fn take_next(&mut self) -> (r: Option<Script>)
        ensures
            match r {
                Some(s) => old(self).pending().len() > 0 && s == old(self).pending()[0]
                    && final(self).pending() == old(self).pending().skip(1),
                None => old(self).pending().len() == 0
                    && final(self).pending() == old(self).pending(),
            },
    {
        if self.queue.len() == 0 {
            return None;
        }
        let s = self.queue.remove(0);
        proof {
            assert(final(self).pending() =~= old(self).pending().skip(1));
        }
        Some(s)
    }

    pub fn len(&self) -> (r: usize)
        ensures
            r == self.pending().len(),
    {
        self.queue.len()
    }
}

} // verus!
