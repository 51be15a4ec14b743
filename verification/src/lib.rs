//! Verified RTP parameter negotiation core for a selective forwarding unit.
//!
//! The crate turns a router's advertised media capabilities, a producer's
//! declared RTP parameters, and a consumer's capabilities into the finalized,
//! consumable and per-consumer parameter sets that RTP forwarding runs on.
//! Every transformation is a pure function over value types, specified by a
//! contract and checked by Verus.

pub mod data_structures;
pub mod h264;
pub mod ortc;
pub mod rtp_parameters;
pub mod scalability_mode;
pub mod ssrc;
pub mod supported_rtp_capabilities;
