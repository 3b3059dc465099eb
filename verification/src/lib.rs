//! Core of a transparent traffic-forwarding engine: per-direction buffered
//! copying, a bidirectional relay with independent half-close timers,
//! composed outbound handlers (drop, null, random, retry, round-robin),
//! TLS server-name sniffing, the dispatch decisions that tie a flow from
//! its inbound to the selected outbound, the tunables layer, and the
//! geosite configuration messages with their wire codec.
pub mod copy;
pub mod dispatcher;
pub mod geosite;
pub mod geosite_parse;
pub mod geosite_wire;
pub mod options;
pub mod proxy;
pub mod relay;
pub mod session;
pub mod sniff;
pub mod text;
