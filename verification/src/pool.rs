//! An accounting model of the bounded session pool.
//!
//! The pool lends at most `max_connections` sessions at a time; a caller
//! that cannot be served waits and asks again. The model keeps the exact
//! count of lent sessions, and its contracts pin down the two moves:
//! a grant happens exactly when capacity is free, and a release always
//! returns one session. The bound `in_use <= max_connections` is the
//! well-formedness of the state and is preserved by both moves.

use vstd::prelude::*;

verus! {

/// The lending state of a bounded session pool.
pub struct SessionPool {
    pub max_connections: usize,
    pub in_use: usize,
}

impl SessionPool {
    /// The pool never lends more sessions than its configured maximum.
    pub open spec fn wf(self) -> bool {
        self.in_use <= self.max_connections
    }

    /// A fresh pool with the given capacity and nothing lent.
    pub fn new(max_connections: usize) -> (p: SessionPool)
        ensures
            p.wf(),
            p.max_connections == max_connections,
            p.in_use == 0,
    {
        SessionPool { max_connections, in_use: 0 }
    }

    /// Lend one session when capacity is free.
    ///
    /// Grants exactly when a session is available; a caller that is not
    /// granted suspends and retries, it never proceeds without a session.
    pub fn try_acquire(&mut self) -> (granted: bool)
        requires
            old(self).wf(),
        ensures
            final(self).wf(),
            final(self).max_connections == old(self).max_connections,
            granted <==> old(self).in_use < old(self).max_connections,
            final(self).in_use == if granted {
                old(self).in_use + 1
            } else {
                old(self).in_use as int
            },
    {
        if self.in_use < self.max_connections {
            self.in_use = self.in_use + 1;
            true
        } else {
            false
        }
    }

    /// Return one lent session, on every exit path of its borrower.
    pub fn release(&mut self)
        requires
            old(self).wf(),
            old(self).in_use > 0,
        ensures
            final(self).wf(),
            final(self).max_connections == old(self).max_connections,
            final(self).in_use == old(self).in_use - 1,
    {
        self.in_use = self.in_use - 1;
    }
}

/// Law: however a grant went, the number of lent sessions never exceeds
/// the configured maximum.
pub proof fn lemma_pool_bound(before: SessionPool, after: SessionPool, granted: bool)
    requires
        before.wf(),
        granted ==> before.in_use < before.max_connections,
        after.max_connections == before.max_connections,
        after.in_use == if granted {
            before.in_use + 1
        } else {
            before.in_use as int
        },
    ensures
        after.in_use <= after.max_connections,
{
}

} // verus!
