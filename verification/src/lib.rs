//! Receives "now playing" telemetry that a player extension pushes over a
//! loopback WebSocket: the wire grammar, the decoded events, the latest-track
//! snapshot and the decisions of the accept/receive loop.
//!
//! Everything here works on plain values. Sockets, tasks and locks belong to
//! the program around the library, which performs the actions that
//! [`delivery`] asks for and hands back what happened.

pub mod address;
pub mod codec;
pub mod connection;
pub mod decimal;
pub mod delivery;
pub mod event;
pub mod fields;
pub mod snapshot;
pub mod text;
pub mod track;

pub use track::{TrackInfo, TrackInfoView, TrackState};
pub use event::{DecodeError, Failure, SpotifyEvent, SpotifyEventView, SpotifyMessage};
