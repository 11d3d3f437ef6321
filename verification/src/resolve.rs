//! Deterministic resolution of a topic to its two rendezvous addresses.
//!
//! A 32-bit digest of the topic bytes picks a port in the dynamic range
//! `49152..65536`. Group traffic uses that port on the IPv4 broadcast address;
//! new local members declare themselves on the successor port (within the same
//! range) on the wildcard address, which never leaves the machine.

use vstd::prelude::*;
use vstd::arithmetic::div_mod::{lemma_add_mod_noop, lemma_small_mod};
use vstd::utf8::encode_utf8;

verus! {

/// First port of the dynamic range into which derived ports fall.
pub const MIN_PORT: u32 = 49152;

/// One past the last usable port number.
pub const MAX_PORT: u32 = 65536;

/// Host part of every group address: the IPv4 broadcast address
/// `255.255.255.255`, as a big-endian integer.
pub const GROUP_HOST: u32 = 0xFFFF_FFFF;

/// Host part of every declare address: the IPv4 wildcard address `0.0.0.0`.
pub const DECLARE_HOST: u32 = 0;

/// One IPv4 endpoint, held as plain values: the host as a big-endian integer
/// and the port number.
#[derive(Clone, Copy, PartialEq, Eq, Hash, Structural, Debug)]
pub struct Addr {
    pub ip: u32,
    pub port: u16,
}

/// The two rendezvous addresses of one topic: `group` is where all topic
/// traffic is sent, `join` is where new local members declare themselves to
/// the machine's relay.
#[derive(Clone, Copy, PartialEq, Eq, Structural, Debug)]
pub struct Group {
    pub group: Addr,
    pub join: Addr,
}

/// The 32-bit xxHash (XXH32) digest of `data` under `seed`.
pub uninterp spec fn xxh32_of(data: Seq<u8>, seed: u32) -> u32;

/// Relies on `xxhash_rust::xxh32::xxh32`: the digest is a pure function of the
/// input bytes and the seed alone.
#[verifier::external_body]
fn xxh32_digest(data: &[u8], seed: u32) -> (h: u32)
    ensures
        h == xxh32_of(data@, seed),
{
    xxhash_rust::xxh32::xxh32(data, seed)
}

/// Port of the group address of a topic whose digest is `h`.
pub open spec fn group_port_of(h: u32) -> u16 {
    (h as int % ((MAX_PORT - MIN_PORT) as int) + MIN_PORT) as u16
}

/// Port of the declare address of a topic whose digest is `h`: the successor
/// of the digest, reduced into the same range.
pub open spec fn join_port_of(h: u32) -> u16 {
    ((h + 1) % ((MAX_PORT - MIN_PORT) as int) + MIN_PORT) as u16
}

/// The addresses that the topic with bytes `topic` resolves to.
pub open spec fn resolve_spec(topic: Seq<u8>) -> Group {
    let h = xxh32_of(topic, 0);
    Group {
        group: Addr { ip: GROUP_HOST, port: group_port_of(h) },
        join: Addr { ip: DECLARE_HOST, port: join_port_of(h) },
    }
}

/// Derive the rendezvous addresses of the topic with bytes `topic`.
pub fn resolve(topic: &[u8]) -> (g: Group)
    requires
        topic@.len() > 0,
    ensures
        g == resolve_spec(topic@),
{
    let h = xxh32_digest(topic, 0);
    let wide: u64 = h as u64;
    let range: u64 = (MAX_PORT - MIN_PORT) as u64;
    let base: u64 = MIN_PORT as u64;
    let group_port: u16 = (wide % range + base) as u16;
    let join_port: u16 = ((wide + 1) % range + base) as u16;
    Group {
        group: Addr { ip: GROUP_HOST, port: group_port },
        join: Addr { ip: DECLARE_HOST, port: join_port },
    }
}

/// Resolution is deterministic: equal topic bytes give equal addresses,
/// within and across processes.
pub proof fn lemma_resolve_deterministic(t1: Seq<u8>, t2: Seq<u8>)
    requires
        t1 == t2,
    ensures
        resolve_spec(t1) == resolve_spec(t2),
{
}

/// The declare port is the successor of the group port within the derived
/// range, so the two never coincide for any topic.
pub proof fn lemma_ports_distinct(topic: Seq<u8>)
    ensures
        resolve_spec(topic).group.port != resolve_spec(topic).join.port,
        resolve_spec(topic).join.port == (resolve_spec(topic).group.port - MIN_PORT + 1) % ((
        MAX_PORT - MIN_PORT) as int) + MIN_PORT,
{
    let h = xxh32_of(topic, 0) as int;
    let r = (MAX_PORT - MIN_PORT) as int;
    lemma_add_mod_noop(h, 1, r);
    lemma_small_mod(1nat, r as nat);
    let a = h % r;
    if a + 1 < r {
        lemma_small_mod((a + 1) as nat, r as nat);
    } else {
        assert(a == r - 1);
        assert((a + 1) % r == 0) by {
            lemma_small_mod(0nat, r as nat);
            assert((a + 1) % r == ((a + 1) - r) % r) by {
                vstd::arithmetic::div_mod::lemma_mod_sub_multiples_vanish(a + 1, r);
            }
        }
    }
}

/// The addresses of a topic named by a string: resolution of its UTF-8 bytes.
pub open spec fn resolve_str_spec(topic: Seq<char>) -> Group {
    resolve_spec(encode_utf8(topic))
}

proof fn lemma_nonempty_encoding(s: Seq<char>)
    requires
        s.len() > 0,
    ensures
        encode_utf8(s).len() > 0,
{
    assert(encode_utf8(s) == vstd::utf8::encode_scalar(s[0] as u32) + encode_utf8(
        s.drop_first(),
    ));
    assert(vstd::utf8::encode_scalar(s[0] as u32).len() > 0);
}

/// Derive the rendezvous addresses of the topic named `msg`.
pub fn group(msg: &str) -> (g: Group)
    requires
        msg@.len() > 0,
    ensures
        g == resolve_str_spec(msg@),
{
    proof {
        lemma_nonempty_encoding(msg@);
    }
    resolve(msg.as_bytes())
}

} // verus!
