//! One read of an established connection, and what it means to the
//! consumer.

use vstd::prelude::*;
use crate::codec::{decode, decoded};
use crate::event::{DecodeError, Failure, SpotifyEvent, SpotifyEventView};

verus! {

/// A frame as the transport hands it over. Only a text frame carries
/// something that the library reads, so the other kinds come without their
/// payload.
#[derive(Debug, Clone, PartialEq, Eq)]
pub enum Frame {
    Text(String),
    Binary,
    Ping,
    Pong,
    Close,
    Raw,
}

/// The mathematical value of a [`Frame`].
pub ghost enum FrameView {
    Text(Seq<char>),
    Binary,
    Ping,
    Pong,
    Close,
    Raw,
}

impl View for Frame {
    type V = FrameView;

    open spec fn view(&self) -> FrameView {
        match self {
            Frame::Text(text) => FrameView::Text(text@),
            Frame::Binary => FrameView::Binary,
            Frame::Ping => FrameView::Ping,
            Frame::Pong => FrameView::Pong,
            Frame::Close => FrameView::Close,
            Frame::Raw => FrameView::Raw,
        }
    }
}

/// What one read of the socket gave.
#[derive(Debug, Clone, PartialEq, Eq)]
pub enum Read {
    /// A frame arrived.
    Frame(Frame),
    /// The read failed, but the connection is still usable.
    Failed,
    /// The socket failed for good.
    Lost,
    /// The stream ended.
    End,
}

/// The mathematical value of a [`Read`].
pub ghost enum ReadView {
    Frame(FrameView),
    Failed,
    Lost,
    End,
}

impl View for Read {
    type V = ReadView;

    open spec fn view(&self) -> ReadView {
        match self {
            Read::Frame(frame) => ReadView::Frame(frame@),
            Read::Failed => ReadView::Failed,
            Read::Lost => ReadView::Lost,
            Read::End => ReadView::End,
        }
    }
}

/// What one read gives the consumer.
#[derive(Debug, Clone, PartialEq, Eq)]
pub enum Received {
    /// A frame decoded to an event.
    Event(SpotifyEvent),
    /// The read gave nothing; the connection stays up.
    Failed(Failure),
    /// The connection is over: the producer closed it, the stream ended or
    /// the socket failed for good.
    Closed,
}

/// The mathematical value of a [`Received`].
pub ghost enum ReceivedView {
    Event(SpotifyEventView),
    Failed(Failure),
    Closed,
}

impl View for Received {
    type V = ReceivedView;

    open spec fn view(&self) -> ReceivedView {
        match self {
            Received::Event(event) => ReceivedView::Event(event@),
            Received::Failed(error) => ReceivedView::Failed(*error),
            Received::Closed => ReceivedView::Closed,
        }
    }
}

/// What a frame gives: a text frame is decoded, a close frame ends the
/// connection, and every other frame is unsupported.
pub open spec fn frame_received(frame: FrameView) -> ReceivedView {
    match frame {
        FrameView::Text(text) => match decoded(text) {
            Ok(event) => ReceivedView::Event(event),
            Err(error) => ReceivedView::Failed(Failure::Decode(error)),
        },
        FrameView::Close => ReceivedView::Closed,
        _ => ReceivedView::Failed(Failure::Decode(DecodeError::UnsupportedFrame)),
    }
}

/// What a read gives: a frame is read as [`frame_received`] says, a failed
/// read is a transport failure that leaves the connection up, and a lost
/// socket or the end of the stream ends the connection.
pub open spec fn received(read: ReadView) -> ReceivedView {
    match read {
        ReadView::Frame(frame) => frame_received(frame),
        ReadView::Failed => ReceivedView::Failed(Failure::Transport),
        ReadView::Lost => ReceivedView::Closed,
        ReadView::End => ReceivedView::Closed,
    }
}

/// Reads one frame of the delimited grammar.
pub fn receive_frame(frame: &Frame) -> (result: Received)
    ensures
        result@ == frame_received(frame@),
{
    match frame {
        Frame::Text(text) => match decode(text.as_str()) {
            Ok(event) => Received::Event(event),
            Err(error) => Received::Failed(Failure::Decode(error)),
        },
        Frame::Close => Received::Closed,
        _ => Received::Failed(Failure::Decode(DecodeError::UnsupportedFrame)),
    }
}

/// Says what one read of a connection that speaks the delimited grammar
/// gives the consumer.
pub fn receive(read: &Read) -> (result: Received)
    ensures
        result@ == received(read@),
{
    match read {
        Read::Frame(frame) => receive_frame(frame),
        Read::Failed => Received::Failed(Failure::Transport),
        Read::Lost => Received::Closed,
        Read::End => Received::Closed,
    }
}

/// A frame that is neither text nor a close never ends the connection, and
/// never gives an event.
pub proof fn lemma_other_frames_unsupported(frame: FrameView)
    requires
        !(frame is Text),
        !(frame is Close),
    ensures
        frame_received(frame) == ReceivedView::Failed(
            Failure::Decode(DecodeError::UnsupportedFrame),
        ),
{
}

/// A connection ends with a close frame, a lost socket or the end of the
/// stream, and with nothing else: no failure ends it.
pub proof fn lemma_what_closes(read: ReadView)
    ensures
        received(read) is Closed <==> (read == ReadView::Frame(FrameView::Close) || read
            == ReadView::Lost || read == ReadView::End),
{
}

/// A read gives an event exactly when it is a text frame that decodes, and
/// then it gives that event.
pub proof fn lemma_what_gives_an_event(read: ReadView)
    ensures
        received(read) is Event <==> (read matches ReadView::Frame(FrameView::Text(text))
            && decoded(text) is Ok),
        read matches ReadView::Frame(FrameView::Text(text)) ==> (decoded(text) matches Ok(event)
            ==> received(read) == ReceivedView::Event(event)),
{
}

} // verus!
