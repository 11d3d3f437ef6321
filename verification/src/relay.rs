//! The forwarding relay's per-event logic.
//!
//! A relay owns two listening sockets and runs two loops outside this crate:
//! the declare loop receives on the topic's join address and records each
//! sender, and the forward loop receives on the group address and fans every
//! datagram out to a snapshot of the registry through a dedicated outbound
//! socket. The decisions each loop takes per event are the functions here:
//! what a declare datagram does to the registry, and what a receive outcome
//! obliges the forward loop to send, or how long to back off.

use vstd::prelude::*;

verus! {

/// Size of the fixed receive buffer: datagrams larger than this are truncated.
pub const BUFFER_SIZE: usize = 1024;

/// How long the forward loop backs off after a transient receive failure,
/// in milliseconds.
pub const BACKOFF_MILLIS: u64 = 100;

/// What of a datagram survives the fixed receive buffer: the first
/// `BUFFER_SIZE` bytes, or all of it when it fits.
pub open spec fn truncated(data: Seq<u8>) -> Seq<u8> {
    if data.len() <= BUFFER_SIZE {
        data
    } else {
        data.take(BUFFER_SIZE as int)
    }
}

/// Cap a payload at the receive buffer size, keeping its leading bytes.
pub fn truncate_payload(data: &[u8]) -> (r: Vec<u8>)
    ensures
        r@ == truncated(data@),
{
    let n: usize = if data.len() <= BUFFER_SIZE {
        data.len()
    } else {
        BUFFER_SIZE
    };
    let head = vstd::slice::slice_subrange(data, 0, n);
    let out = vstd::slice::slice_to_vec(head);
    proof {
        assert(truncated(data@) =~= data@.subrange(0, n as int));
    }
    out
}

/// One step of the declare loop: a datagram arrived on the join address from
/// `sender`. Only the sender's address is consumed; the payload is accepted
/// whatever it holds and never inspected, so garbage or empty declares cannot
/// corrupt the registry.
pub fn declare_step(
    registry: &mut crate::registry::MembershipRegistry,
    sender: crate::resolve::Addr,
    _payload: &[u8],
)
    requires
        old(registry).wf(),
    ensures
        final(registry).wf(),
        final(registry)@ == crate::registry::insert_spec(old(registry)@, sender),
{
    registry.insert(sender);
}

/// What one step of the forward loop must do.
pub enum ForwardAction {
    /// The receive failed transiently: sleep `BACKOFF_MILLIS` and retry.
    Backoff,
    /// A datagram arrived: send `payload` to every address in `targets`.
    /// A send failure to one target skips it; the rest still receive.
    Deliver { targets: Vec<crate::resolve::Addr>, payload: Vec<u8> },
}

/// One step of the forward loop: `received` is the datagram the group socket
/// handed over, or nothing on a transient receive failure. On a datagram, the
/// full current registry is targeted with exactly the received bytes, capped
/// at the buffer size; each datagram is fanned out whole before the next is
/// processed.
pub fn forward_step(
    registry: &crate::registry::MembershipRegistry,
    received: Option<&[u8]>,
) -> (act: ForwardAction)
    ensures
        (match received {
            Option::Some(data) => act matches ForwardAction::Deliver { targets, payload }
                && targets@ == registry@ && payload@ == truncated(data@),
            Option::None => act == ForwardAction::Backoff,
        }),
{
    match received {
        Option::Some(data) => ForwardAction::Deliver {
            targets: registry.snapshot(),
            payload: truncate_payload(data),
        },
        Option::None => ForwardAction::Backoff,
    }
}

/// Outcome of one relay election.
#[derive(Clone, Copy, PartialEq, Eq, Structural, Debug)]
pub enum ElectionOutcome {
    /// Both rendezvous addresses were bound: the caller is now obliged to run
    /// the relay for this topic on this machine.
    Elected,
    /// The group address was already taken: a relay is already running here,
    /// and the caller proceeds as a plain member. Not an error.
    RelayPresent,
    /// The group address was free but the join address could not be bound:
    /// the join fails and is surfaced to the caller.
    BindFailed,
}

/// The outcome that the two bind attempts dictate.
pub open spec fn election_spec(group_bound: bool, join_bound: bool) -> ElectionOutcome {
    if !group_bound {
        ElectionOutcome::RelayPresent
    } else if join_bound {
        ElectionOutcome::Elected
    } else {
        ElectionOutcome::BindFailed
    }
}

/// Decide a relay election from the two bind attempts: `group_bound` and
/// `join_bound` say whether exclusively binding the group address and the
/// join address succeeded. Binding is the sole election mechanism; losing it
/// is benign.
pub fn run_election(group_bound: bool, join_bound: bool) -> (o: ElectionOutcome)
    ensures
        o == election_spec(group_bound, join_bound),
{
    if !group_bound {
        ElectionOutcome::RelayPresent
    } else if join_bound {
        ElectionOutcome::Elected
    } else {
        ElectionOutcome::BindFailed
    }
}

/// The relay's whole life: unbound until it wins an election, then bound and
/// running until the process exits.
#[derive(Clone, Copy, PartialEq, Eq, Structural, Debug)]
pub enum RelayState {
    Unbound,
    BoundAndRunning,
}

/// Advance the relay state by one election outcome: the only transition is
/// from unbound to bound-and-running on a won election, and a running relay
/// never leaves that state.
pub fn election_transition(state: RelayState, outcome: ElectionOutcome) -> (s: RelayState)
    ensures
        state == RelayState::BoundAndRunning ==> s == RelayState::BoundAndRunning,
        state == RelayState::Unbound && outcome == ElectionOutcome::Elected ==> s
            == RelayState::BoundAndRunning,
        state == RelayState::Unbound && outcome != ElectionOutcome::Elected ==> s
            == RelayState::Unbound,
{
    match state {
        RelayState::BoundAndRunning => RelayState::BoundAndRunning,
        RelayState::Unbound => match outcome {
            ElectionOutcome::Elected => RelayState::BoundAndRunning,
            ElectionOutcome::RelayPresent => RelayState::Unbound,
            ElectionOutcome::BindFailed => RelayState::Unbound,
        },
    }
}

/// At most one of two racing callers is elected: the operating system grants
/// the exclusive bind of the group address to at most one of them, and only a
/// caller holding it can win.
pub proof fn lemma_election_mutual_exclusion(g1: bool, j1: bool, g2: bool, j2: bool)
    requires
        !(g1 && g2),
    ensures
        !(election_spec(g1, j1) == ElectionOutcome::Elected && election_spec(g2, j2)
            == ElectionOutcome::Elected),
{
}

/// The bytes a fresh member sends to the join address to declare itself. The
/// relay accepts any declare payload; this fixed marker is merely the
/// conventional one.
pub fn declare_payload() -> (r: Vec<u8>)
    ensures
        r@ == seq![68u8, 65u8, 86u8, 69u8],
{
    let mut out: Vec<u8> = Vec::new();
    out.push(68);
    out.push(65);
    out.push(86);
    out.push(69);
    proof {
        assert(out@ =~= seq![68u8, 65u8, 86u8, 69u8]);
    }
    out
}

} // verus!
