//! The playback state and the description of one track.

use vstd::prelude::*;

verus! {

/// Whether the track is playing, paused or stopped.
///
/// The variants are declared in the order of their wire codes, so the derived
/// ordering is `Stopped < Paused < Playing`.
#[derive(Debug, Copy, Clone, PartialEq, Eq, Structural, PartialOrd, Ord, Hash)]
pub enum TrackState {
    Stopped,
    Paused,
    Playing,
}

impl TrackState {
    /// The state that a wire code stands for: 2 is `Playing`, 1 is `Paused`,
    /// every other code is `Stopped`.
    pub open spec fn spec_from_u32(n: u32) -> TrackState {
        if n == 2 {
            TrackState::Playing
        } else if n == 1 {
            TrackState::Paused
        } else {
            TrackState::Stopped
        }
    }

    /// The wire code of a state.
    pub open spec fn spec_code(self) -> u32 {
        match self {
            TrackState::Playing => 2,
            TrackState::Paused => 1,
            TrackState::Stopped => 0,
        }
    }

    /// Total conversion from a wire code; unknown codes are `Stopped`, never
    /// an error.
    #[verifier::when_used_as_spec(spec_from_u32)]
    pub fn from_u32(n: u32) -> (state: TrackState)
        ensures
            state == Self::spec_from_u32(n),
    {
        match n {
            2 => TrackState::Playing,
            1 => TrackState::Paused,
            _ => TrackState::Stopped,
        }
    }

    /// The wire code of this state.
    #[verifier::when_used_as_spec(spec_code)]
    pub fn code(self) -> (n: u32)
        ensures
            n == self.spec_code(),
    {
        match self {
            TrackState::Playing => 2,
            TrackState::Paused => 1,
            TrackState::Stopped => 0,
        }
    }

    /// The state's name, as it is shown to a user.
    pub fn name(self) -> (text: &'static str)
        ensures
            text@ == match self {
                TrackState::Playing => "Playing"@,
                TrackState::Paused => "Paused"@,
                TrackState::Stopped => "Stopped"@,
            },
    {
        match self {
            TrackState::Playing => "Playing",
            TrackState::Paused => "Paused",
            TrackState::Stopped => "Stopped",
        }
    }

    /// A state survives the trip through its wire code.
    pub proof fn lemma_code_round_trip(state: TrackState)
        ensures
            Self::spec_from_u32(state.spec_code()) == state,
            state.spec_code() <= 2,
    {
    }

    /// Only the codes 1 and 2 stand for a state other than `Stopped`.
    pub proof fn lemma_unknown_code_is_stopped(n: u32)
        ensures
            Self::spec_from_u32(n) == TrackState::Stopped <==> (n != 1 && n != 2),
    {
    }
}

impl Default for TrackState {
    fn default() -> (state: TrackState)
        ensures
            state == TrackState::Stopped,
    {
        TrackState::Stopped
    }
}

/// One track as the player describes it.
#[derive(Debug, Clone, PartialEq, Eq, PartialOrd, Ord)]
pub struct TrackInfo {
    /// Identifier of the track; two descriptions with the same `uid` are the
    /// same track.
    pub uid: String,
    /// Resource locator of the track inside the player.
    pub uri: String,
    /// Playback state at the time of the message.
    pub state: TrackState,
    /// Length of the track in milliseconds.
    pub duration: u64,
    /// Title of the track.
    pub title: String,
    /// Album of the track.
    pub album: String,
    /// The artists, in the order given; the delimited grammar carries one.
    pub artist: Vec<String>,
    /// Cover art, where the player has any.
    pub cover: Option<String>,
    /// Full-screen background art, where the player has any.
    pub background: Option<String>,
}

/// The mathematical value of a [`TrackInfo`]: its texts as sequences of
/// characters.
pub ghost struct TrackInfoView {
    pub uid: Seq<char>,
    pub uri: Seq<char>,
    pub state: TrackState,
    pub duration: u64,
    pub title: Seq<char>,
    pub album: Seq<char>,
    pub artist: Seq<Seq<char>>,
    pub cover: Option<Seq<char>>,
    pub background: Option<Seq<char>>,
}

/// The characters of an optional text.
pub open spec fn optional_text(text: Option<String>) -> Option<Seq<char>> {
    match text {
        Some(s) => Some(s@),
        None => None,
    }
}

impl View for TrackInfo {
    type V = TrackInfoView;

    open spec fn view(&self) -> TrackInfoView {
        TrackInfoView {
            uid: self.uid@,
            uri: self.uri@,
            state: self.state,
            duration: self.duration,
            title: self.title@,
            album: self.album@,
            artist: self.artist.deep_view(),
            cover: optional_text(self.cover),
            background: optional_text(self.background),
        }
    }
}

impl TrackInfoView {
    /// The same track in another playback state.
    pub open spec fn with_state(self, state: TrackState) -> TrackInfoView {
        TrackInfoView { state, ..self }
    }

    /// Whether two descriptions are of one track: their `uid`s agree.
    pub open spec fn same_track(self, other: TrackInfoView) -> bool {
        self.uid == other.uid
    }
}

impl TrackInfo {
    /// Whether `other` describes the same track, whatever its state and its
    /// other fields say: only the `uid`s are compared.
    pub fn eq_ignore_state(&self, other: &TrackInfo) -> (same: bool)
        ensures
            same == self@.same_track(other@),
    {
        self.uid == other.uid
    }

    /// Being the same track is an equivalence that a change of state never
    /// breaks.
    pub proof fn lemma_same_track_ignores_state(a: TrackInfoView, b: TrackInfoView, c: TrackInfoView, state: TrackState)
        ensures
            a.same_track(a),
            a.same_track(b) == b.same_track(a),
            a.same_track(b) && b.same_track(c) ==> a.same_track(c),
            a.with_state(state).same_track(b) == a.same_track(b),
    {
    }
}

impl Default for TrackInfo {
    fn default() -> (track: TrackInfo)
        ensures
            track@ == (TrackInfoView {
                uid: Seq::empty(),
                uri: Seq::empty(),
                state: TrackState::Stopped,
                duration: 0,
                title: Seq::empty(),
                album: Seq::empty(),
                artist: Seq::empty(),
                cover: None,
                background: None,
            }),
    {
        let track = TrackInfo {
            uid: String::new(),
            uri: String::new(),
            state: TrackState::Stopped,
            duration: 0,
            title: String::new(),
            album: String::new(),
            artist: Vec::new(),
            cover: None,
            background: None,
        };
        assert(track.artist.deep_view() =~= Seq::<Seq<char>>::empty());
        track
    }
}

} // verus!
