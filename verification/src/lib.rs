//! Broker-less, topic-addressed publish/subscribe messaging over UDP.
//!
//! A process joins a topic by deriving a well-known rendezvous address from
//! the topic string; the first process on a machine to claim that address
//! becomes the machine's forwarding relay for the topic, fanning inbound topic
//! traffic out to every other local process subscribed to the same topic.
//!
//! This crate holds the verified core: the hash-based address derivation, the
//! membership registry, the relay's per-datagram step logic, and the
//! process-local table of joined topics. Socket creation, binding and the
//! blocking receive loops live outside it and drive these functions.

pub mod member_table;
pub mod registry;
pub mod relay;
pub mod resolve;
