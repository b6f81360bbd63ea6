//! Core transport and concurrency plane of a face-tracking telemetry
//! publisher/subscriber: the latest-value slot, the framed binary message
//! codec with its structural fingerprint, the publisher/subscriber decision
//! logic, and the tracking pipeline's dispatch rules.

pub mod codec;
pub mod data;
pub mod fingerprint;
pub mod net;
pub mod pipeline;
pub mod slot;
pub mod triangulate;
