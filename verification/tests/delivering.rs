use spotify_info::connection::{receive, Frame, Read, Received};
use spotify_info::delivery::{AcceptFailure, Action, Delivery, DeliveryLoop, DeliveryState, Outcome};
use spotify_info::event::{DecodeError, Failure, SpotifyEvent};
use spotify_info::track::TrackState;

fn read(read: Read) -> Outcome {
    Outcome::Received(receive(&read))
}

fn frame(frame: Frame) -> Outcome {
    read(Read::Frame(frame))
}

fn connected() -> DeliveryLoop {
    let mut delivery = DeliveryLoop::new();
    assert_eq!(delivery.poll(false), Action::Accept);
    assert_eq!(delivery.route(Outcome::Accepted), Delivery::Nothing);
    assert_eq!(delivery.state(), DeliveryState::Connected);
    delivery
}

#[test]
fn loop_starts_idle_and_accepts() {
    let mut delivery = DeliveryLoop::new();
    assert_eq!(delivery.state(), DeliveryState::Idle);
    assert_eq!(delivery.poll(false), Action::Accept);
    assert_eq!(delivery.state(), DeliveryState::Accepting);
    assert_eq!(delivery.poll(false), Action::Accept);
    assert_eq!(delivery.state(), DeliveryState::Accepting);
}

#[test]
fn accepted_connection_is_received_from() {
    let mut delivery = connected();
    assert_eq!(delivery.poll(false), Action::Receive);
    assert_eq!(delivery.state(), DeliveryState::Connected);
}

#[test]
fn events_are_delivered_in_order() {
    let mut delivery = connected();
    let frames = ["STATE_CHANGED;1", "PROGRESS_CHANGED;0.25", "STATE_CHANGED;2"];
    let mut got = Vec::new();
    for frame in frames {
        assert_eq!(delivery.poll(false), Action::Receive);
        got.push(delivery.route(read(Read::Frame(Frame::Text(frame.to_string())))));
    }
    assert_eq!(got, vec![
        Delivery::Event(SpotifyEvent::StateChanged(TrackState::Paused)),
        Delivery::Event(SpotifyEvent::ProgressChanged("0.25".to_string())),
        Delivery::Event(SpotifyEvent::StateChanged(TrackState::Playing)),
    ]);
    assert_eq!(delivery.state(), DeliveryState::Connected);
}

#[test]
fn failed_accept_is_reported_and_tried_again() {
    let mut delivery = DeliveryLoop::new();
    delivery.poll(false);
    assert_eq!(
        delivery.route(Outcome::AcceptFailed(AcceptFailure::Transport)),
        Delivery::Failure(Failure::Transport)
    );
    assert_eq!(delivery.state(), DeliveryState::Accepting);
    assert_eq!(delivery.poll(false), Action::Accept);
    assert_eq!(
        delivery.route(Outcome::AcceptFailed(AcceptFailure::Handshake)),
        Delivery::Failure(Failure::Handshake)
    );
    assert_eq!(delivery.state(), DeliveryState::Accepting);
    assert_eq!(delivery.poll(false), Action::Accept);
    assert_eq!(delivery.route(Outcome::Accepted), Delivery::Nothing);
    assert_eq!(delivery.state(), DeliveryState::Connected);
}

#[test]
fn decode_errors_keep_the_connection() {
    let mut delivery = connected();
    assert_eq!(
        delivery.route(frame(Frame::Text("TRACK_CHANGED;a;b;c".to_string()))),
        Delivery::Failure(Failure::Decode(DecodeError::InvalidData))
    );
    assert_eq!(delivery.state(), DeliveryState::Connected);
    assert_eq!(
        delivery.route(frame(Frame::Binary)),
        Delivery::Failure(Failure::Decode(DecodeError::UnsupportedFrame))
    );
    assert_eq!(delivery.state(), DeliveryState::Connected);
    assert_eq!(
        delivery.route(frame(Frame::Ping)),
        Delivery::Failure(Failure::Decode(DecodeError::UnsupportedFrame))
    );
    assert_eq!(delivery.route(read(Read::Failed)), Delivery::Failure(Failure::Transport));
    assert_eq!(delivery.state(), DeliveryState::Connected);
    assert_eq!(delivery.poll(false), Action::Receive);
}

#[test]
fn dropped_connection_is_followed_by_a_new_one() {
    let mut delivery = connected();
    assert_eq!(delivery.route(frame(Frame::Close)), Delivery::Nothing);
    assert_eq!(delivery.state(), DeliveryState::Accepting);
    assert_eq!(delivery.poll(false), Action::Accept);
    assert_eq!(delivery.route(Outcome::Accepted), Delivery::Nothing);
    assert_eq!(delivery.state(), DeliveryState::Connected);
    assert_eq!(delivery.poll(false), Action::Receive);
    assert_eq!(
        delivery.route(frame(Frame::Text("STATE_CHANGED;2".to_string()))),
        Delivery::Event(SpotifyEvent::StateChanged(TrackState::Playing))
    );
}

#[test]
fn ended_stream_is_followed_by_a_new_connection() {
    let mut delivery = connected();
    assert_eq!(delivery.route(read(Read::End)), Delivery::Nothing);
    assert_eq!(delivery.state(), DeliveryState::Accepting);
    assert_eq!(delivery.poll(false), Action::Accept);
    assert_eq!(delivery.route(Outcome::Accepted), Delivery::Nothing);
    assert_eq!(delivery.poll(false), Action::Receive);
}

#[test]
fn lost_connection_is_followed_by_a_new_one() {
    let mut delivery = connected();
    for _ in 0..5 {
        assert_eq!(delivery.route(read(Read::Lost)), Delivery::Nothing);
        assert_eq!(delivery.state(), DeliveryState::Accepting);
        assert_eq!(delivery.poll(false), Action::Accept);
        assert_eq!(delivery.route(Outcome::Accepted), Delivery::Nothing);
        assert_eq!(delivery.state(), DeliveryState::Connected);
    }
}

#[test]
fn event_decoded_elsewhere_is_delivered_as_it_is() {
    let mut delivery = connected();
    let event = SpotifyEvent::ProgressChanged("0.5".to_string());
    assert_eq!(
        delivery.route(Outcome::Received(Received::Event(event.clone()))),
        Delivery::Event(event)
    );
    assert_eq!(
        delivery.route(Outcome::Received(Received::Failed(Failure::Decode(DecodeError::InvalidData)))),
        Delivery::Failure(Failure::Decode(DecodeError::InvalidData))
    );
    assert_eq!(delivery.state(), DeliveryState::Connected);
    assert_eq!(delivery.route(Outcome::Received(Received::Closed)), Delivery::Nothing);
    assert_eq!(delivery.state(), DeliveryState::Accepting);
}

#[test]
fn cancellation_stops_from_any_state() {
    let mut idle = DeliveryLoop::new();
    assert_eq!(idle.poll(true), Action::Stop);
    assert_eq!(idle.state(), DeliveryState::Closed);

    let mut accepting = DeliveryLoop::new();
    accepting.poll(false);
    assert_eq!(accepting.poll(true), Action::Stop);
    assert_eq!(accepting.state(), DeliveryState::Closed);

    let mut up = connected();
    assert_eq!(up.poll(true), Action::Stop);
    assert_eq!(up.state(), DeliveryState::Closed);
}

#[test]
fn closed_loop_stays_closed() {
    let mut delivery = connected();
    delivery.poll(true);
    assert_eq!(delivery.poll(false), Action::Stop);
    assert_eq!(delivery.state(), DeliveryState::Closed);
    assert_eq!(delivery.route(Outcome::Accepted), Delivery::Nothing);
    assert_eq!(delivery.state(), DeliveryState::Closed);
    assert_eq!(
        delivery.route(frame(Frame::Text("STATE_CHANGED;2".to_string()))),
        Delivery::Nothing
    );
    assert_eq!(delivery.state(), DeliveryState::Closed);
}

#[test]
fn outcome_that_does_not_belong_changes_nothing() {
    let mut idle = DeliveryLoop::new();
    assert_eq!(idle.route(Outcome::Accepted), Delivery::Nothing);
    assert_eq!(idle.state(), DeliveryState::Idle);

    let mut accepting = DeliveryLoop::new();
    accepting.poll(false);
    assert_eq!(accepting.route(read(Read::End)), Delivery::Nothing);
    assert_eq!(accepting.route(frame(Frame::Close)), Delivery::Nothing);
    assert_eq!(accepting.state(), DeliveryState::Accepting);

    let mut up = connected();
    assert_eq!(up.route(Outcome::Accepted), Delivery::Nothing);
    assert_eq!(up.route(Outcome::AcceptFailed(AcceptFailure::Handshake)), Delivery::Nothing);
    assert_eq!(up.state(), DeliveryState::Connected);
}
