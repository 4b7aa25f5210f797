//! Per-application window actor for a window-management daemon.
//!
//! Each running application is owned by one single-threaded actor that tracks
//! the application's windows, serializes mutation requests issued by a central
//! coordinator, and turns asynchronous OS notifications into a normalized
//! event stream.  The platform (accessibility) layer is modelled by
//! [`platform::Platform`], an in-memory stand-in for the OS window list that
//! the actor logic is verified against; the process boundary that feeds
//! requests and notifications into the actor lives outside this crate.

pub mod actor;
pub mod bridge;
pub mod errors;
pub mod events;
pub mod geometry;
pub mod ids;
pub mod platform;
pub mod raise_token;
