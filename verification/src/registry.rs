//! The relay's registry of declared local members.
//!
//! Entries are the network addresses of members that sent a declare datagram.
//! Insertion is idempotent and entries are never removed: the set grows
//! monotonically for the life of the relay. The relay wraps one registry in a
//! lock and shares it between its declare loop and its forward loop; every
//! operation here is one short insert or one snapshot copy, so the lock is
//! never held across a blocking receive.

use vstd::prelude::*;

verus! {

/// What inserting `a` does to the recorded members `s`: nothing if `a` is
/// already recorded, else `a` is appended.
pub open spec fn insert_spec(s: Seq<crate::resolve::Addr>, a: crate::resolve::Addr) -> Seq<
    crate::resolve::Addr,
> {
    if s.contains(a) {
        s
    } else {
        s.push(a)
    }
}

/// The set of member addresses declared to one relay, in declaration order.
pub struct MembershipRegistry {
    members: Vec<crate::resolve::Addr>,
}

impl View for MembershipRegistry {
    type V = Seq<crate::resolve::Addr>;

    closed spec fn view(&self) -> Seq<crate::resolve::Addr> {
        self.members@
    }
}

impl MembershipRegistry {
    /// Each member is recorded once: repeated declares add nothing.
    pub open spec fn wf(&self) -> bool {
        self@.no_duplicates()
    }

    /// An empty registry, as a relay starts with.
    pub fn new() -> (r: MembershipRegistry)
        ensures
            r@ == Seq::<crate::resolve::Addr>::empty(),
            r.wf(),
    {
        MembershipRegistry { members: Vec::new() }
    }

    /// Whether `a` has been recorded.
    pub fn contains(&self, a: crate::resolve::Addr) -> (r: bool)
        ensures
            r == self@.contains(a),
    {
        let n = self.members.len();
        let mut i: usize = 0;
        while i < n
            invariant
                n == self.members@.len(),
                0 <= i <= n,
                forall|j: int| 0 <= j < i ==> self.members@[j] != a,
            decreases n - i,
        {
            if self.members[i] == a {
                return true;
            }
            i = i + 1;
        }
        false
    }

    /// Record `a`. Recording an address that is already present changes
    /// nothing; a new address is appended.
    pub fn insert(&mut self, a: crate::resolve::Addr)
        requires
            old(self).wf(),
        ensures
            final(self).wf(),
            final(self)@ == insert_spec(old(self)@, a),
    {
        if !self.contains(a) {
            self.members.push(a);
        }
    }

    /// How many members are recorded.
    pub fn len(&self) -> (n: usize)
        ensures
            n == self@.len(),
    {
        self.members.len()
    }

    /// A point-in-time copy of the recorded members, in declaration order.
    /// The forward loop takes one under the lock and fans out after releasing
    /// it.
    pub fn snapshot(&self) -> (s: Vec<crate::resolve::Addr>)
        ensures
            s@ == self@,
    {
        let n = self.members.len();
        let mut out: Vec<crate::resolve::Addr> = Vec::new();
        let mut i: usize = 0;
        while i < n
            invariant
                n == self.members@.len(),
                0 <= i <= n,
                out@ == self.members@.take(i as int),
            decreases n - i,
        {
            out.push(self.members[i]);
            proof {
                assert(out@ =~= self.members@.take(i + 1));
            }
            i = i + 1;
        }
        proof {
            assert(out@ =~= self.members@);
        }
        out
    }
}

/// Declaring the same member twice leaves the registry exactly as one
/// declaration does: forwarding never duplicates on repeated declares.
pub proof fn lemma_insert_idempotent(s: Seq<crate::resolve::Addr>, a: crate::resolve::Addr)
    ensures
        insert_spec(insert_spec(s, a), a) == insert_spec(s, a),
{
    if !s.contains(a) {
        assert(insert_spec(s, a).contains(a)) by {
            assert(insert_spec(s, a)[s.len() as int] == a);
        }
    }
}

/// A member whose declaration was recorded stays recorded, so it is among the
/// targets of every later fan-out.
pub proof fn lemma_declared_member_is_targeted(s: Seq<crate::resolve::Addr>, a: crate::resolve::Addr)
    ensures
        insert_spec(s, a).contains(a),
        forall|b: crate::resolve::Addr| s.contains(b) ==> insert_spec(s, a).contains(b),
{
    if !s.contains(a) {
        assert(insert_spec(s, a)[s.len() as int] == a);
    }
    assert forall|b: crate::resolve::Addr| s.contains(b) implies insert_spec(s, a).contains(b) by {
        let w = choose|w: int| 0 <= w < s.len() && s[w] == b;
        assert(insert_spec(s, a)[w] == b);
    }
}

/// A well-formed registry holds each member at most once, so one forwarded
/// datagram reaches each member at most once.
pub proof fn lemma_single_copy(s: Seq<crate::resolve::Addr>)
    requires
        s.no_duplicates(),
    ensures
        forall|a: crate::resolve::Addr| s.to_multiset().count(a) <= 1,
{
    s.lemma_multiset_has_no_duplicates();
    assert forall|a: crate::resolve::Addr| s.to_multiset().count(a) <= 1 by {
        if s.to_multiset().count(a) > 0 {
            assert(s.to_multiset().contains(a));
        }
    }
}

} // verus!
