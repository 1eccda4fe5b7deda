//! The limiter that every remote operation passes: a bounded number of
//! operations at a time over all hosts, and one at a time on each host.

use crate::names::{
    find, lemma_position, lemma_with_distinct, lemma_without_distinct, position, with, without,
};
use vstd::prelude::*;
use vstd::string::*;

verus! {

/// The number of remote operations that may run at the same time,
/// unless another number is chosen.
pub const MAX_CONCURRENT: usize = 4;

/// Limits the remote operations that run at the same time.
///
/// A host holds a ticket while an operation runs on it. A ticket is
/// given only while fewer tickets are out than the limit allows and the
/// host holds none itself.
pub struct SshLimiter {
    max: usize,
    holders: Vec<String>,
    host_locks: Vec<String>,
}

impl SshLimiter {
    /// The number of operations that may run at the same time.
    pub closed spec fn capacity(&self) -> nat {
        self.max as nat
    }

    /// The hosts that hold a ticket, in the order in which they got it.
    pub closed spec fn holders(&self) -> Seq<Seq<char>> {
        self.holders.deep_view()
    }

    /// The hosts for which a lock exists: every host that ever asked for a ticket.
    pub closed spec fn locks(&self) -> Seq<Seq<char>> {
        self.host_locks.deep_view()
    }

    /// Whether `host` holds a ticket.
    pub open spec fn holds(&self, host: Seq<char>) -> bool {
        self.holders().contains(host)
    }

    /// No host holds two tickets, no more tickets are out than the limit
    /// allows, and every host with a ticket has its lock.
    pub closed spec fn wf(&self) -> bool {
        &&& self.holders.deep_view().no_duplicates()
        &&& self.holders.len() <= self.max
        &&& self.host_locks.deep_view().no_duplicates()
        &&& forall|h: Seq<char>|
            self.holders.deep_view().contains(h) ==> self.host_locks.deep_view().contains(h)
    }

    /// A limiter that lets `max` operations run at the same time.
    pub fn new(max: usize) -> (r: Self)
        ensures
            r.wf(),
            r.capacity() == max,
            r.holders() == Seq::<Seq<char>>::empty(),
            r.locks() == Seq::<Seq<char>>::empty(),
    {
        let r = SshLimiter { max, holders: Vec::new(), host_locks: Vec::new() };
        assert(r.holders.deep_view() == Seq::<Seq<char>>::empty());
        assert(r.host_locks.deep_view() == Seq::<Seq<char>>::empty());
        r
    }

    /// The number of operations that may run at the same time.
    pub fn limit(&self) -> (r: usize)
        ensures
            r == self.capacity(),
    {
        self.max
    }

    /// The number of tickets that are out.
    pub fn in_flight(&self) -> (r: usize)
        requires
            self.wf(),
        ensures
            r == self.holders().len(),
            r <= self.capacity(),
    {
        self.holders.len()
    }

    /// Whether `host_id` holds a ticket.
    pub fn is_held(&self, host_id: &str) -> (r: bool)
        ensures
            r == self.holds(host_id@),
    {
        proof {
            lemma_position(self.holders.deep_view(), host_id@);
        }
        find(&self.holders, host_id) < self.holders.len()
    }

    /// The place of the lock of `host_id`, which is made if there is none yet.
    fn get_host_lock(&mut self, host_id: &str) -> (r: usize)
        requires
            old(self).wf(),
        ensures
            final(self).wf(),
            final(self).capacity() == old(self).capacity(),
            final(self).holders() == old(self).holders(),
            final(self).locks() == with(old(self).locks(), host_id@),
            r == position(final(self).locks(), host_id@),
            r < final(self).locks().len(),
    {
        let at = find(&self.host_locks, host_id);
        proof {
            lemma_with_distinct(self.host_locks.deep_view(), host_id@);
            lemma_position(self.host_locks.deep_view(), host_id@);
            lemma_position(with(self.host_locks.deep_view(), host_id@), host_id@);
        }
        if at == self.host_locks.len() {
            let ghost before = self.host_locks.deep_view();
            self.host_locks.push(String::from_str(host_id));
            assert(self.host_locks.deep_view() == before.push(host_id@));
        }
        at
    }

    /// Asks for a ticket for `host_id` and tells whether it was given.
    /// It is given if and only if a ticket is free and the host holds
    /// none. The caller who is refused waits and asks again.
    pub fn acquire(&mut self, host_id: &str) -> (granted: bool)
        requires
            old(self).wf(),
        ensures
            final(self).wf(),
            final(self).capacity() == old(self).capacity(),
            granted == (old(self).holders().len() < old(self).capacity() && !old(self).holds(
                host_id@,
            )),
            final(self).holders() == if granted {
                old(self).holders().push(host_id@)
            } else {
                old(self).holders()
            },
            final(self).locks() == with(old(self).locks(), host_id@),
    {
        if self.holders.len() >= self.max {
            self.get_host_lock(host_id);
            return false;
        }
        let _ = self.get_host_lock(host_id);
        if self.is_held(host_id) {
            return false;
        }
        let ghost before = self.holders.deep_view();
        proof {
            lemma_position(before, host_id@);
            lemma_with_distinct(before, host_id@);
            lemma_with_distinct(old(self).locks(), host_id@);
        }
        self.holders.push(String::from_str(host_id));
        assert(self.holders.deep_view() == before.push(host_id@));
        assert(self.holders.deep_view() == with(before, host_id@));
        assert forall|h: Seq<char>| self.holders.deep_view().contains(h) implies
            self.host_locks.deep_view().contains(h) by {
            if h != host_id@ {
                let j = choose|j: int| 0 <= j < before.len() + 1 && before.push(host_id@)[j] == h;
                assert(before[j] == h);
            }
        }
        true
    }

    /// Gives back the ticket of `host_id` and tells whether it held one.
    pub fn release(&mut self, host_id: &str) -> (released: bool)
        requires
            old(self).wf(),
        ensures
            final(self).wf(),
            final(self).capacity() == old(self).capacity(),
            released == old(self).holds(host_id@),
            final(self).holders() == without(old(self).holders(), host_id@),
            final(self).locks() == old(self).locks(),
    {
        let at = find(&self.holders, host_id);
        let ghost before = self.holders.deep_view();
        proof {
            lemma_position(before, host_id@);
            lemma_without_distinct(before, host_id@);
        }
        if at < self.holders.len() {
            self.holders.remove(at);
            assert(self.holders.deep_view() == before.remove(at as int));
            true
        } else {
            false
        }
    }
}

/// No two operations run on the same host at the same time: the
/// hosts that hold a ticket are all different.
pub proof fn law_one_ticket_per_host(limiter: SshLimiter, i: int, j: int)
    requires
        limiter.wf(),
        0 <= i < limiter.holders().len(),
        0 <= j < limiter.holders().len(),
        i != j,
    ensures
        limiter.holders()[i] != limiter.holders()[j],
{
}

/// The operations that run at the same time never exceed the limit.
pub proof fn law_tickets_within_limit(limiter: SshLimiter)
    requires
        limiter.wf(),
    ensures
        limiter.holders().len() <= limiter.capacity(),
{
}

} // verus!
