//! The latest track, as one value, and the request to stop.
//!
//! A [`Snapshot`] is what a shared handle holds: nothing until the first
//! track is reported, then always one complete description. The program
//! around the library keeps it behind its lock and replaces it as a whole.

use vstd::prelude::*;
use crate::event::{SpotifyEvent, SpotifyEventView};
use crate::track::{TrackInfo, TrackInfoView, TrackState};

verus! {

/// The latest track that was reported, if any was.
#[derive(Debug, Clone, PartialEq, Eq)]
pub struct Snapshot {
    track: Option<TrackInfo>,
}

/// The track after `event`, given the one before it: a new track replaces
/// the old one, a new state is the old track in that state, and progress
/// changes nothing. A state that comes before any track is dropped.
pub open spec fn updated(before: Option<TrackInfoView>, event: SpotifyEventView) -> Option<
    TrackInfoView,
> {
    match event {
        SpotifyEventView::TrackChanged(track) => Some(track),
        SpotifyEventView::StateChanged(state) => match before {
            Some(track) => Some(track.with_state(state)),
            None => None,
        },
        SpotifyEventView::ProgressChanged(_) => before,
    }
}

/// Whether `event` brings a track other than the one before it.
pub open spec fn brings_new_track(before: Option<TrackInfoView>, event: SpotifyEventView) -> bool {
    match event {
        SpotifyEventView::TrackChanged(track) => match before {
            Some(old) => !old.same_track(track),
            None => true,
        },
        _ => false,
    }
}

/// The track after a run of events, starting with none.
pub open spec fn replayed(events: Seq<SpotifyEventView>) -> Option<TrackInfoView>
    decreases events.len(),
{
    if events.len() == 0 {
        None
    } else {
        updated(replayed(events.drop_last()), events.last())
    }
}

/// Whether the event at `index` is the last one of `events` that reports a
/// track, and `track` is the track it reports.
pub open spec fn is_latest_track(events: Seq<SpotifyEventView>, index: int, track: TrackInfoView)
    -> bool {
    &&& 0 <= index < events.len()
    &&& events[index] == SpotifyEventView::TrackChanged(track)
    &&& forall|later: int| index < later < events.len() ==> !(#[trigger] events[later] is TrackChanged)
}

/// A snapshot never mixes two tracks: it holds nothing until a track is
/// reported, and then it is the track reported last, in every field but the
/// state, which later events may have changed.
pub proof fn lemma_snapshot_is_latest_track(events: Seq<SpotifyEventView>)
    ensures
        match replayed(events) {
            None => forall|i: int| 0 <= i < events.len() ==> !(#[trigger] events[i] is TrackChanged),
            Some(held) => exists|i: int, track: TrackInfoView| #[trigger]
                is_latest_track(events, i, track) && held == track.with_state(held.state),
        },
    decreases events.len(),
{
    if events.len() > 0 {
        let before = events.drop_last();
        lemma_snapshot_is_latest_track(before);
        match events.last() {
            SpotifyEventView::TrackChanged(track) => {
                assert(is_latest_track(events, events.len() - 1, track));
            },
            _ => {
                match replayed(before) {
                    Some(held) => {
                        let (i, track) = choose|i: int, track: TrackInfoView| #[trigger]
                            is_latest_track(before, i, track) && held == track.with_state(
                                held.state,
                            );
                        assert(forall|k: int| 0 <= k < before.len() ==> before[k] == events[k]);
                        assert(is_latest_track(events, i, track));
                    },
                    None => {
                        assert(forall|k: int| 0 <= k < before.len() ==> before[k] == events[k]);
                    },
                }
            },
        }
    }
}

impl View for Snapshot {
    type V = Option<TrackInfoView>;

    closed spec fn view(&self) -> Option<TrackInfoView> {
        match self.track {
            Some(track) => Some(track@),
            None => None,
        }
    }
}

impl Snapshot {
    /// A snapshot that holds no track yet.
    pub fn new() -> (snapshot: Snapshot)
        ensures
            snapshot@ is None,
    {
        Snapshot { track: None }
    }

    /// The latest track, or `None` before the first one.
    pub fn read(&self) -> (track: Option<&TrackInfo>)
        ensures
            match track {
                Some(t) => self@ == Some(t@),
                None => self@ is None,
            },
    {
        self.track.as_ref()
    }

    /// Takes `event` into the snapshot and says whether it brought a track
    /// other than the one held before.
    pub fn update(&mut self, event: SpotifyEvent) -> (new_track: bool)
        ensures
            final(self)@ == updated(old(self)@, event@),
            new_track == brings_new_track(old(self)@, event@),
    {
        match event {
            SpotifyEvent::TrackChanged(track) => {
                let new_track = match &self.track {
                    Some(held) => !held.eq_ignore_state(&track),
                    None => true,
                };
                self.track = Some(track);
                new_track
            },
            SpotifyEvent::StateChanged(state) => {
                match self.track.take() {
                    Some(held) => {
                        let mut held = held;
                        held.state = state;
                        self.track = Some(held);
                    },
                    None => {},
                }
                false
            },
            SpotifyEvent::ProgressChanged(_) => false,
        }
    }

    /// What a reader holds after it looked at the shared snapshot. `seen` is
    /// the shared snapshot where the reader got at it, and `None` where the
    /// writer held it: then the reader keeps what it saw last.
    pub fn refresh(&mut self, seen: Option<Snapshot>)
        ensures
            final(self)@ == match seen {
                Some(shared) => shared@,
                None => old(self)@,
            },
    {
        match seen {
            Some(shared) => {
                *self = shared;
            },
            None => {},
        }
    }

    /// After a track was reported, the snapshot holds exactly that track,
    /// whatever it held before; later states change its state and nothing
    /// else.
    pub proof fn lemma_update_is_whole(
        before: Option<TrackInfoView>,
        track: TrackInfoView,
        state: TrackState,
    )
        ensures
            updated(before, SpotifyEventView::TrackChanged(track)) == Some(track),
            updated(Some(track), SpotifyEventView::StateChanged(state)) == Some(
                track.with_state(state),
            ),
            updated(None, SpotifyEventView::StateChanged(state)) is None,
            !brings_new_track(Some(track), SpotifyEventView::TrackChanged(track.with_state(state))),
    {
    }
}

/// The request to stop a delivery loop: armed when made, requested once and
/// never armed again.
#[derive(Debug, Clone, PartialEq, Eq)]
pub struct CancellationToken {
    requested: bool,
}

impl CancellationToken {
    /// Whether the stop was requested.
    pub closed spec fn spec_is_requested(&self) -> bool {
        self.requested
    }

    /// An armed token.
    pub fn new() -> (token: CancellationToken)
        ensures
            !token.is_requested(),
    {
        CancellationToken { requested: false }
    }

    /// Requests the stop. A second request changes nothing.
    pub fn request(&mut self)
        ensures
            final(self).is_requested(),
    {
        self.requested = true;
    }

    /// Whether the stop was requested.
    #[verifier::when_used_as_spec(spec_is_requested)]
    pub fn is_requested(&self) -> (requested: bool)
        ensures
            requested == self.spec_is_requested(),
    {
        self.requested
    }
}

} // verus!
