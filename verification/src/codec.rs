//! The delimited grammar: a frame is a kind and its fields, joined by `;`.
//!
//! ```text
//! TRACK_CHANGED;uid;uri;state;duration;title;album;artist;cover;background
//! STATE_CHANGED;state
//! PROGRESS_CHANGED;fraction
//! SET_PROGRESS_INTERVAL;milliseconds
//! ```
//!
//! The first three come from the producer, the last one goes to it. Fields
//! beyond those listed are ignored.
//!
//! The structured grammar, one JSON object per frame, is read by the program
//! around the library; of it only the request to the producer is written
//! here.

use vstd::prelude::*;
use crate::decimal::{
    decimal_digits, is_digit, lemma_decimal_round_trip, number_or_zero, parse_or_zero,
    parsed_number, push_decimal,
};
use crate::event::{decoding_view, DecodeError, SpotifyEvent, SpotifyEventView, SpotifyMessage};
use crate::fields::{
    delimiter_count, escape_token, is_plain, lemma_split_appended, lemma_split_fields,
    lemma_unescape_token, split, split_fields, unescape, unescape_field, DELIMITER,
};
use crate::text::{to_chars, to_text};
use crate::track::{TrackInfo, TrackInfoView, TrackState};

verus! {

/// The number of fields in a frame that reports a track, its kind included.
pub const TRACK_FIELDS: usize = 10;

/// What an optional field stands for: the text `NONE` is no value, any other
/// text is that value.
pub open spec fn optional_field(s: Seq<char>) -> Option<Seq<char>> {
    if s == "NONE"@ {
        None
    } else {
        Some(s)
    }
}

/// The state that a state field names. A field that is no number of 32 bits
/// counts as code zero.
pub open spec fn state_of_field(s: Seq<char>) -> TrackState {
    TrackState::spec_from_u32(number_or_zero(s, u32::MAX as nat) as u32)
}

/// The track that the fields of a `TRACK_CHANGED` frame describe.
pub open spec fn track_of_fields(fields: Seq<Seq<char>>) -> TrackInfoView
    recommends
        fields.len() >= TRACK_FIELDS,
{
    TrackInfoView {
        uid: fields[1],
        uri: fields[2],
        state: state_of_field(fields[3]),
        duration: number_or_zero(fields[4], u64::MAX as nat) as u64,
        title: unescape(fields[5]),
        album: unescape(fields[6]),
        artist: seq![unescape(fields[7])],
        cover: optional_field(fields[8]),
        background: optional_field(fields[9]),
    }
}

/// The event that a frame with the given fields stands for.
pub open spec fn decode_fields(fields: Seq<Seq<char>>) -> Result<SpotifyEventView, DecodeError>
    recommends
        fields.len() >= 1,
{
    if fields[0] == "TRACK_CHANGED"@ {
        if fields.len() >= TRACK_FIELDS {
            Ok(SpotifyEventView::TrackChanged(track_of_fields(fields)))
        } else {
            Err(DecodeError::InvalidData)
        }
    } else if fields[0] == "STATE_CHANGED"@ {
        if fields.len() >= 2 {
            Ok(SpotifyEventView::StateChanged(state_of_field(fields[1])))
        } else {
            Err(DecodeError::InvalidData)
        }
    } else if fields[0] == "PROGRESS_CHANGED"@ {
        if fields.len() >= 2 {
            Ok(SpotifyEventView::ProgressChanged(fields[1]))
        } else {
            Err(DecodeError::InvalidData)
        }
    } else {
        Err(DecodeError::InvalidData)
    }
}

/// The event that the text of a frame stands for.
pub open spec fn decoded(text: Seq<char>) -> Result<SpotifyEventView, DecodeError> {
    decode_fields(split_fields(text))
}

/// The text of a request to the producer.
pub open spec fn encoded(message: SpotifyMessage) -> Seq<char> {
    match message {
        SpotifyMessage::ProgressUpdateInterval(millis) => "SET_PROGRESS_INTERVAL;"@
            + decimal_digits(millis as nat),
    }
}

/// The text of a request to the producer in the structured grammar: one
/// object with one key, which names the request and holds its number.
pub open spec fn encoded_structured(message: SpotifyMessage) -> Seq<char> {
    match message {
        SpotifyMessage::ProgressUpdateInterval(millis) => "{\"ProgressUpdateInterval\":"@
            + decimal_digits(millis as nat) + "}"@,
    }
}

/// Whether the stretch `chars[from..to]` is the text `word`.
fn is_word(chars: &[char], from: usize, to: usize, word: &str) -> (same: bool)
    requires
        from <= to <= chars@.len(),
    ensures
        same == (chars@.subrange(from as int, to as int) == word@),
{
    broadcast use vstd::string::group_string_axioms;

    let ghost field = chars@.subrange(from as int, to as int);
    let mut i: usize = from;
    for c in it: word.chars()
        invariant
            it.seq() == word@,
            from <= to <= chars@.len(),
            field == chars@.subrange(from as int, to as int),
            i == from + it.index(),
            i <= to,
            field.take(it.index()) == word@.take(it.index()),
    {
        if i >= to || chars[i] != c {
            return false;
        }
        i += 1;
    }
    assert(word@.take(word@.len() as int) =~= word@);
    if i == to {
        assert(field.take(field.len() as int) =~= field);
    }
    i == to
}

/// Reads an optional field.
fn optional(chars: &[char], from: usize, to: usize) -> (value: Option<String>)
    requires
        from <= to <= chars@.len(),
    ensures
        crate::track::optional_text(value) == optional_field(chars@.subrange(from as int, to as int)),
{
    if is_word(chars, from, to, "NONE") {
        None
    } else {
        Some(to_text(chars, from, to))
    }
}

/// Reads a state field.
fn state(chars: &[char], from: usize, to: usize) -> (state: TrackState)
    requires
        from <= to <= chars@.len(),
    ensures
        state == state_of_field(chars@.subrange(from as int, to as int)),
{
    let code = parse_or_zero(chars, from, to, u32::MAX as u64);
    TrackState::from_u32(code as u32)
}

/// Decodes one text frame of the delimited grammar.
///
/// A frame whose kind is unknown or that has too few fields is
/// `InvalidData`; that includes the empty frame. Nothing else fails: a
/// numeric field that is no number reads as zero.
pub fn decode(text: &str) -> (result: Result<SpotifyEvent, DecodeError>)
    ensures
        decoding_view(result) == decoded(text@),
{
    let chars = to_chars(text);
    let chars = chars.as_slice();
    let bounds = split(chars);
    let ghost fields = split_fields(text@);
    proof {
        lemma_split_fields(text@);
    }
    let count = bounds.len();
    let kind = bounds[0];
    if is_word(chars, kind.0, kind.1, "TRACK_CHANGED") {
        if count < TRACK_FIELDS {
            return Err(DecodeError::InvalidData);
        }
        let mut artist: Vec<String> = Vec::new();
        artist.push(unescape_field(chars, bounds[7].0, bounds[7].1));
        let track = TrackInfo {
            uid: to_text(chars, bounds[1].0, bounds[1].1),
            uri: to_text(chars, bounds[2].0, bounds[2].1),
            state: state(chars, bounds[3].0, bounds[3].1),
            duration: parse_or_zero(chars, bounds[4].0, bounds[4].1, u64::MAX),
            title: unescape_field(chars, bounds[5].0, bounds[5].1),
            album: unescape_field(chars, bounds[6].0, bounds[6].1),
            artist,
            cover: optional(chars, bounds[8].0, bounds[8].1),
            background: optional(chars, bounds[9].0, bounds[9].1),
        };
        assert(track.artist.deep_view() =~= seq![unescape(fields[7])]);
        Ok(SpotifyEvent::TrackChanged(track))
    } else if is_word(chars, kind.0, kind.1, "STATE_CHANGED") {
        if count < 2 {
            return Err(DecodeError::InvalidData);
        }
        Ok(SpotifyEvent::StateChanged(state(chars, bounds[1].0, bounds[1].1)))
    } else if is_word(chars, kind.0, kind.1, "PROGRESS_CHANGED") {
        if count < 2 {
            return Err(DecodeError::InvalidData);
        }
        Ok(SpotifyEvent::ProgressChanged(to_text(chars, bounds[1].0, bounds[1].1)))
    } else {
        Err(DecodeError::InvalidData)
    }
}

/// Encodes a request to the producer as one text frame of the delimited
/// grammar.
pub fn encode(message: &SpotifyMessage) -> (text: String)
    ensures
        text@ == encoded(*message),
{
    match message {
        SpotifyMessage::ProgressUpdateInterval(millis) => {
            let mut text = "SET_PROGRESS_INTERVAL;".to_owned();
            push_decimal(&mut text, *millis);
            text
        },
    }
}

/// Encodes a request to the producer as one text frame of the structured
/// grammar.
pub fn encode_structured(message: &SpotifyMessage) -> (text: String)
    ensures
        text@ == encoded_structured(*message),
{
    match message {
        SpotifyMessage::ProgressUpdateInterval(millis) => {
            let mut text = "{\"ProgressUpdateInterval\":".to_owned();
            push_decimal(&mut text, *millis);
            text.push('}');
            proof {
                reveal_strlit("}");
            }
            text
        },
    }
}

/// Decoding fails in one way only, and a frame that reports a track is
/// decoded exactly when it has all nine fields after its kind: what the
/// numeric fields hold never decides it.
pub proof fn lemma_only_shape_is_checked(fields: Seq<Seq<char>>)
    requires
        fields.len() >= 1,
    ensures
        decode_fields(fields) is Err ==> decode_fields(fields) == Err::<
            SpotifyEventView,
            DecodeError,
        >(DecodeError::InvalidData),
        fields[0] == "TRACK_CHANGED"@ ==> (decode_fields(fields) is Ok <==> fields.len()
            >= TRACK_FIELDS),
        fields[0] == "STATE_CHANGED"@ || fields[0] == "PROGRESS_CHANGED"@ ==> (decode_fields(
            fields,
        ) is Ok <==> fields.len() >= 2),
        fields[0] != "TRACK_CHANGED"@ && fields[0] != "STATE_CHANGED"@ && fields[0]
            != "PROGRESS_CHANGED"@ ==> decode_fields(fields) is Err,
{
    reveal_strlit("TRACK_CHANGED");
    reveal_strlit("STATE_CHANGED");
    reveal_strlit("PROGRESS_CHANGED");
    if fields[0] == "STATE_CHANGED"@ {
        assert(fields[0][0] != "TRACK_CHANGED"@[0]);
    }
    if fields[0] == "PROGRESS_CHANGED"@ {
        assert(fields[0][0] != "TRACK_CHANGED"@[0]);
        assert(fields[0][0] != "STATE_CHANGED"@[0]);
    }
}

/// A duration or a state that is no number reads as zero, and the rest of
/// the track is what the other fields say.
pub proof fn lemma_bad_numbers_read_as_zero(fields: Seq<Seq<char>>)
    requires
        fields.len() >= TRACK_FIELDS,
    ensures
        parsed_number(fields[4], u64::MAX as nat) is None ==> track_of_fields(fields).duration
            == 0,
        parsed_number(fields[3], u32::MAX as nat) is None ==> track_of_fields(fields).state
            == TrackState::Stopped,
        forall|state: Seq<char>, duration: Seq<char>|
            #![trigger fields.update(3, state).update(4, duration)]
            track_of_fields(fields.update(3, state).update(4, duration)) == (TrackInfoView {
                state: state_of_field(state),
                duration: number_or_zero(duration, u64::MAX as nat) as u64,
                ..track_of_fields(fields)
            }),
{
}

/// A frame without a delimiter has no field after its kind and is rejected,
/// whatever its kind.
pub proof fn lemma_frame_without_fields_is_invalid(text: Seq<char>)
    requires
        delimiter_count(text) == 0,
    ensures
        decoded(text) == Err::<SpotifyEventView, DecodeError>(DecodeError::InvalidData),
{
    lemma_split_fields(text);
}

/// The empty frame has no kind and is rejected.
pub proof fn lemma_empty_frame_is_invalid()
    ensures
        decoded(Seq::<char>::empty()) == Err::<SpotifyEventView, DecodeError>(
            DecodeError::InvalidData,
        ),
{
    reveal_strlit("TRACK_CHANGED");
    reveal_strlit("STATE_CHANGED");
    reveal_strlit("PROGRESS_CHANGED");
}

/// An escape token in the title field is a delimiter in the title.
pub proof fn lemma_escaped_title(fields: Seq<Seq<char>>, before: Seq<char>, after: Seq<char>)
    requires
        fields.len() >= TRACK_FIELDS,
        fields[5] == before + escape_token() + after,
    ensures
        track_of_fields(fields).title == unescape(before) + seq![DELIMITER] + unescape(after),
        track_of_fields(fields).title.contains(DELIMITER),
{
    lemma_unescape_token(before, after);
    let title = track_of_fields(fields).title;
    assert(title[unescape(before).len() as int] == DELIMITER);
}

/// The number in a delimited request is its second field, and reads back as
/// it was written.
pub proof fn lemma_interval_reads_back(millis: u64)
    ensures
        split_fields(encoded(SpotifyMessage::ProgressUpdateInterval(millis))).len() == 2,
        number_or_zero(
            split_fields(encoded(SpotifyMessage::ProgressUpdateInterval(millis)))[1],
            u64::MAX as nat,
        ) == millis,
{
    let head = "SET_PROGRESS_INTERVAL;"@;
    let digits = decimal_digits(millis as nat);
    reveal_strlit("SET_PROGRESS_INTERVAL;");
    lemma_decimal_round_trip(millis as nat, u64::MAX as nat);
    assert(is_plain(digits));
    lemma_split_appended(head, digits);
    lemma_split_fields(head.drop_last());
    lemma_split_appended(Seq::<char>::empty(), head.drop_last());
}

} // verus!
