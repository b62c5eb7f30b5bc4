//! A server-side guide for robots.
//!
//! A robot connects, proves with a challenge and a response that it holds one
//! of the known keys, and is then guided over a grid that it cannot see to the
//! origin, where it picks up a secret. It reports its position after every
//! order and nothing else; it may stop to recharge at any time.
//!
//! The library decides, the caller moves the bytes:
//!
//! - [`framing`] cuts the stream of bytes into messages,
//! - [`messages`] reads them and writes the server's own,
//! - [`state_machine`] runs the session from the login to the secret,
//! - [`path`] finds the way to the origin, and [`journey`] shows that it does,
//! - [`errors`] says how a session fails and what the robot is told,
//! - [`constants`], [`wire`] and [`decimal`] hold what the others share.

pub mod constants;
pub mod decimal;
pub mod errors;
pub mod framing;
pub mod journey;
pub mod messages;
pub mod path;
pub mod state_machine;
pub mod wire;
