//! The process-local table of joined topics.
//!
//! A caller that sends or receives on a topic by name should join it once and
//! reuse the result: redundant joins cost an election attempt and declare
//! traffic. The table caches, per topic name, the addresses the topic resolves
//! to, and remembers whether its endpoints are to be opened in non-blocking
//! mode. The sockets themselves live with the caller, keyed by the same
//! names; the table tells it when a fresh join is owed.

use vstd::prelude::*;

verus! {

/// The set of string views that a slice of topic names covers.
pub open spec fn views_of(msgs: Seq<&str>) -> Set<Seq<char>> {
    Set::new(|k: Seq<char>| exists|i: int| 0 <= i < msgs.len() && msgs[i]@ == k)
}

/// Per-process cache of joined topics: each entry maps a topic name to the
/// addresses it resolves to.
pub struct MemberTable {
    entries: Vec<(String, crate::resolve::Group)>,
    nonblocking: bool,
}

impl MemberTable {
    /// The topic names cached so far, as string views.
    pub closed spec fn cached(&self) -> Set<Seq<char>> {
        Set::new(
            |k: Seq<char>|
                exists|i: int| 0 <= i < self.entries@.len() && self.entries@[i].0@ == k,
        )
    }

    /// Whether endpoints of this table are to be opened in non-blocking mode.
    pub closed spec fn nonblocking_mode(&self) -> bool {
        self.nonblocking
    }

    /// Topic names are cached once each, are never empty, and each maps to
    /// exactly the addresses it resolves to.
    pub closed spec fn wf(&self) -> bool {
        &&& forall|i: int, j: int|
            0 <= i < j < self.entries@.len() ==> self.entries@[i].0@ != self.entries@[j].0@
        &&& forall|i: int|
            0 <= i < self.entries@.len() ==> self.entries@[i].1 == crate::resolve::resolve_str_spec(
                #[trigger] self.entries@[i].0@,
            )
        &&& forall|i: int| 0 <= i < self.entries@.len() ==> #[trigger] self.entries@[i].0@.len() > 0
    }

    /// An empty table whose endpoints are to be non-blocking: a receive with
    /// no datagram ready reports absence instead of waiting.
    pub fn nonblocking() -> (t: MemberTable)
        ensures
            t.wf(),
            t.cached() == Set::<Seq<char>>::empty(),
            t.nonblocking_mode(),
    {
        let t = MemberTable { entries: Vec::new(), nonblocking: true };
        proof {
            assert(t.cached() =~= Set::<Seq<char>>::empty());
        }
        t
    }

    /// Whether endpoints of this table are to be opened in non-blocking mode.
    pub fn is_nonblocking(&self) -> (b: bool)
        ensures
            b == self.nonblocking_mode(),
    {
        self.nonblocking
    }

    /// Look the topic named `msg` up, resolving and caching it first if it is
    /// new. Returns the topic's addresses and whether the entry is new — a new
    /// entry is the caller's cue to open an endpoint and join the topic.
    pub fn get(&mut self, msg: &str) -> (res: (crate::resolve::Group, bool))
        requires
            old(self).wf(),
            msg@.len() > 0,
        ensures
            final(self).wf(),
            final(self).nonblocking_mode() == old(self).nonblocking_mode(),
            res.0 == crate::resolve::resolve_str_spec(msg@),
            res.1 == !old(self).cached().contains(msg@),
            final(self).cached() == old(self).cached().insert(msg@),
    {
        let key: String = msg.to_owned();
        let n = self.entries.len();
        let mut i: usize = 0;
        while i < n
            invariant
                n == self.entries@.len(),
                0 <= i <= n,
                key@ == msg@,
                *self == *old(self),
                old(self).wf(),
                forall|j: int| 0 <= j < i ==> self.entries@[j].0@ != msg@,
            decreases n - i,
        {
            if self.entries[i].0 == key {
                proof {
                    assert(self.cached().contains(msg@)) by {
                        assert(self.entries@[i as int].0@ == msg@);
                    }
                    assert(self.cached().insert(msg@) =~= self.cached());
                }
                return (self.entries[i].1, false);
            }
            i = i + 1;
        }
        proof {
            assert(!old(self).cached().contains(msg@));
        }
        let g = crate::resolve::group(msg);
        let ghost before = self.entries@;
        self.entries.push((key, g));
        proof {
            assert forall|k: Seq<char>| self.cached().contains(k) <==> old(self).cached().insert(
                msg@,
            ).contains(k) by {
                if self.cached().contains(k) {
                    let w = choose|w: int|
                        0 <= w < self.entries@.len() && self.entries@[w].0@ == k;
                    if w < before.len() {
                        assert(before[w].0@ == k);
                    } else {
                        assert(k == msg@);
                    }
                }
                if old(self).cached().contains(k) {
                    let w = choose|w: int| 0 <= w < before.len() && before[w].0@ == k;
                    assert(self.entries@[w].0@ == k);
                }
                if k == msg@ {
                    assert(self.entries@[before.len() as int].0@ == msg@);
                }
            }
            assert(self.cached() =~= old(self).cached().insert(msg@));
        }
        (g, true)
    }

    /// Resolve and cache every topic in `msgs` that is not cached yet; what
    /// was already cached stays as it is.
    pub fn preload(&mut self, msgs: &[&str])
        requires
            old(self).wf(),
            forall|i: int| 0 <= i < msgs@.len() ==> #[trigger] msgs@[i]@.len() > 0,
        ensures
            final(self).wf(),
            final(self).nonblocking_mode() == old(self).nonblocking_mode(),
            final(self).cached() == old(self).cached() + views_of(msgs@),
    {
        let n = msgs.len();
        let mut i: usize = 0;
        while i < n
            invariant
                n == msgs@.len(),
                0 <= i <= n,
                self.wf(),
                self.nonblocking_mode() == old(self).nonblocking_mode(),
                forall|j: int| 0 <= j < n ==> #[trigger] msgs@[j]@.len() > 0,
                self.cached() == old(self).cached() + views_of(msgs@.take(i as int)),
            decreases n - i,
        {
            let ghost prior = self.cached();
            let (_g, _added) = self.get(msgs[i]);
            proof {
                assert forall|k: Seq<char>|
                    prior.insert(msgs@[i as int]@).contains(k) <==> (old(self).cached() + views_of(
                        msgs@.take(i + 1),
                    )).contains(k) by {
                    if views_of(msgs@.take(i as int)).contains(k) {
                        let w = choose|w: int|
                            0 <= w < msgs@.take(i as int).len() && msgs@.take(i as int)[w]@ == k;
                        assert(msgs@.take(i + 1)[w]@ == k);
                    }
                    if k == msgs@[i as int]@ {
                        assert(msgs@.take(i + 1)[i as int]@ == k);
                    }
                    if views_of(msgs@.take(i + 1)).contains(k) {
                        let w = choose|w: int|
                            0 <= w < msgs@.take(i + 1).len() && #[trigger] msgs@.take(i + 1)[w]@
                                == k;
                        if w < i {
                            assert(msgs@.take(i as int)[w]@ == k);
                        } else {
                            assert(k == msgs@[i as int]@);
                        }
                    }
                }
                assert(self.cached() =~= old(self).cached() + views_of(msgs@.take(i + 1)));
            }
            i = i + 1;
        }
        proof {
            assert(msgs@.take(n as int) =~= msgs@);
        }
    }
}

impl Default for MemberTable {
    /// An empty table whose endpoints block on receive.
    fn default() -> (t: MemberTable)
        ensures
            t.wf(),
            t.cached() == Set::<Seq<char>>::empty(),
            !t.nonblocking_mode(),
    {
        let t = MemberTable { entries: Vec::new(), nonblocking: false };
        proof {
            assert(t.cached() =~= Set::<Seq<char>>::empty());
        }
        t
    }
}

/// Relies on `core::str::from_utf8`: it returns the bytes decoded as a string
/// exactly when they are a valid UTF-8 encoding, and an error otherwise.
#[verifier::external_body]
fn utf8_to_str(bytes: &[u8]) -> (r: Option<&str>)
    ensures
        (match r {
            Option::Some(s) => vstd::utf8::valid_utf8(bytes@) && s@ == vstd::utf8::decode_utf8(
                bytes@,
            ),
            Option::None => !vstd::utf8::valid_utf8(bytes@),
        }),
{
    core::str::from_utf8(bytes).ok()
}

/// Decode one received datagram as text, as a topic receive hands it to the
/// caller: the characters the bytes encode, or nothing when they are not
/// valid UTF-8.
pub fn decode_text(bytes: &[u8]) -> (r: Option<String>)
    ensures
        (match r {
            Option::Some(s) => vstd::utf8::valid_utf8(bytes@) && s@ == vstd::utf8::decode_utf8(
                bytes@,
            ),
            Option::None => !vstd::utf8::valid_utf8(bytes@),
        }),
{
    match utf8_to_str(bytes) {
        Option::Some(s) => Option::Some(s.to_owned()),
        Option::None => Option::None,
    }
}

/// The bytes a send on a topic carries: the explicit payload when one is
/// given, else the topic name itself.
pub fn send_payload<'a>(msg: &'a str, data: Option<&'a str>) -> (r: &'a str)
    ensures
        (match data {
            Option::Some(d) => r@ == d@,
            Option::None => r@ == msg@,
        }),
{
    match data {
        Option::Some(d) => d,
        Option::None => msg,
    }
}

} // verus!
