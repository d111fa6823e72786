//! What the producer reports, what can be sent back to it, and how decoding
//! a frame can fail.

use vstd::prelude::*;
use crate::track::{TrackInfo, TrackInfoView, TrackState};

verus! {

/// Why a frame gave no event.
#[derive(Debug, Copy, Clone, PartialEq, Eq, Structural, Hash)]
pub enum DecodeError {
    /// The frame is empty, of an unknown kind, or has too few fields.
    InvalidData,
    /// The frame is not a text frame.
    UnsupportedFrame,
}

/// A failure that the consumer is told of. None of them ends the listener.
#[derive(Debug, Copy, Clone, PartialEq, Eq, Structural, Hash)]
pub enum Failure {
    /// The socket failed.
    Transport,
    /// The handshake of a new connection failed.
    Handshake,
    /// A frame gave no event.
    Decode(DecodeError),
}

/// One report of the producer.
#[derive(Debug, Clone, PartialEq, Eq)]
pub enum SpotifyEvent {
    /// The user changed the track.
    TrackChanged(TrackInfo),
    /// The track started playing, was paused or stopped. Not sent when the
    /// track changes.
    StateChanged(TrackState),
    /// The position within the track, sent at a set interval while playing:
    /// a decimal fraction, nominally between 0 and 1, held as the producer
    /// wrote it. It is neither clamped nor rounded here.
    ProgressChanged(String),
}

/// The mathematical value of a [`SpotifyEvent`].
pub ghost enum SpotifyEventView {
    TrackChanged(TrackInfoView),
    StateChanged(TrackState),
    ProgressChanged(Seq<char>),
}

impl View for SpotifyEvent {
    type V = SpotifyEventView;

    open spec fn view(&self) -> SpotifyEventView {
        match self {
            SpotifyEvent::TrackChanged(track) => SpotifyEventView::TrackChanged(track@),
            SpotifyEvent::StateChanged(state) => SpotifyEventView::StateChanged(*state),
            SpotifyEvent::ProgressChanged(fraction) => SpotifyEventView::ProgressChanged(
                fraction@,
            ),
        }
    }
}

/// A request to the producer.
#[derive(Debug, Copy, Clone, PartialEq, Eq, Structural)]
pub enum SpotifyMessage {
    /// Asks the producer to report progress every so many milliseconds.
    ProgressUpdateInterval(u64),
}

/// The outcome of decoding, with the event as its mathematical value.
pub open spec fn decoding_view(result: Result<SpotifyEvent, DecodeError>) -> Result<
    SpotifyEventView,
    DecodeError,
> {
    match result {
        Ok(event) => Ok(event@),
        Err(error) => Err(error),
    }
}

} // verus!
