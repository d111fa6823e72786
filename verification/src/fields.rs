//! The fields of a delimited frame.
//!
//! A frame is its fields joined by `;`. A free-text field cannot hold the
//! delimiter itself, so the producer writes the token `$SEMICOLON` in its
//! place and the reader puts the delimiter back.

use vstd::prelude::*;

verus! {

/// The character that parts the fields of a frame.
pub const DELIMITER: char = ';';

/// The text that stands for a delimiter inside a free-text field.
pub const ESCAPE_TOKEN: &'static str = "$SEMICOLON";

/// The characters of [`ESCAPE_TOKEN`].
pub open spec fn escape_token() -> Seq<char> {
    seq!['$', 'S', 'E', 'M', 'I', 'C', 'O', 'L', 'O', 'N']
}

/// [`ESCAPE_TOKEN`] holds the characters of `escape_token`.
pub proof fn lemma_escape_token_text()
    ensures
        ESCAPE_TOKEN@ == escape_token(),
{
    reveal_strlit("$SEMICOLON");
}

/// The fields of `s`: the stretches between its delimiters, in order. A text
/// with `n` delimiters has `n + 1` fields, some of which may be empty.
pub open spec fn split_fields(s: Seq<char>) -> Seq<Seq<char>>
    decreases s.len(),
{
    if s.len() == 0 {
        seq![Seq::<char>::empty()]
    } else {
        let before = split_fields(s.drop_last());
        if s.last() == DELIMITER {
            before.push(Seq::<char>::empty())
        } else {
            before.drop_last().push(before.last().push(s.last()))
        }
    }
}

/// The text that holds `fields`, with a delimiter between each two.
pub open spec fn join_fields(fields: Seq<Seq<char>>) -> Seq<char>
    decreases fields.len(),
{
    if fields.len() == 0 {
        Seq::<char>::empty()
    } else if fields.len() == 1 {
        fields[0]
    } else {
        join_fields(fields.drop_last()) + seq![DELIMITER] + fields.last()
    }
}

/// The number of delimiters in `s`.
pub open spec fn delimiter_count(s: Seq<char>) -> nat
    decreases s.len(),
{
    if s.len() == 0 {
        0
    } else if s.last() == DELIMITER {
        delimiter_count(s.drop_last()) + 1
    } else {
        delimiter_count(s.drop_last())
    }
}

/// Splitting loses nothing: no field holds a delimiter, there is one field
/// more than there are delimiters, and joining the fields gives the text
/// back.
pub proof fn lemma_split_fields(s: Seq<char>)
    ensures
        split_fields(s).len() == delimiter_count(s) + 1,
        forall|k: int, j: int|
            0 <= k < split_fields(s).len() && 0 <= j < split_fields(s)[k].len() ==> (
            #[trigger] split_fields(s)[k][j]) != DELIMITER,
        join_fields(split_fields(s)) == s,
    decreases s.len(),
{
    if s.len() > 0 {
        let fields = split_fields(s);
        let before = split_fields(s.drop_last());
        lemma_split_fields(s.drop_last());
        if s.last() == DELIMITER {
            assert(fields.drop_last() =~= before);
        } else if before.len() > 1 {
            assert(fields.drop_last() =~= before.drop_last());
            assert(join_fields(fields) =~= join_fields(before).push(s.last()));
        }
    }
}

/// Whether `s` holds no delimiter.
pub open spec fn is_plain(s: Seq<char>) -> bool {
    forall|j: int| 0 <= j < s.len() ==> s[j] != DELIMITER
}

/// Text without a delimiter that follows a text goes into its last field.
pub proof fn lemma_split_appended(s: Seq<char>, tail: Seq<char>)
    requires
        is_plain(tail),
    ensures
        split_fields(s).len() >= 1,
        split_fields(s + tail) == split_fields(s).drop_last().push(split_fields(s).last() + tail),
    decreases tail.len(),
{
    lemma_split_fields(s);
    if tail.len() > 0 {
        let shorter = tail.drop_last();
        lemma_split_appended(s, shorter);
        assert((s + tail).drop_last() =~= s + shorter);
        assert(split_fields(s + shorter).last().push(tail.last()) =~= split_fields(s).last()
            + tail);
    }
}

/// Splitting undoes joining: fields that hold no delimiter come back as they
/// were, each in its place.
pub proof fn lemma_split_joined(fields: Seq<Seq<char>>)
    requires
        fields.len() >= 1,
        forall|k: int| 0 <= k < fields.len() ==> is_plain(#[trigger] fields[k]),
    ensures
        split_fields(join_fields(fields)) == fields,
    decreases fields.len(),
{
    if fields.len() == 1 {
        lemma_split_appended(Seq::<char>::empty(), fields[0]);
    } else {
        let front = fields.drop_last();
        lemma_split_joined(front);
        let head = join_fields(front) + seq![DELIMITER];
        assert(head.drop_last() =~= join_fields(front));
        lemma_split_appended(head, fields.last());
    }
}

/// The stretches of `chars` that `bounds` marks, each as a text.
pub open spec fn stretches(chars: Seq<char>, bounds: Seq<(usize, usize)>) -> Seq<Seq<char>> {
    Seq::new(bounds.len(), |k: int| chars.subrange(bounds[k].0 as int, bounds[k].1 as int))
}

/// Whether each pair of `bounds` marks a stretch of a text of length `len`.
pub open spec fn within(bounds: Seq<(usize, usize)>, len: nat) -> bool {
    forall|k: int| 0 <= k < bounds.len() ==> (#[trigger] bounds[k]).0 <= bounds[k].1 <= len
}

/// Finds the fields of `chars`: for each one, where it starts and where it
/// ends.
pub fn split(chars: &[char]) -> (bounds: Vec<(usize, usize)>)
    ensures
        within(bounds@, chars@.len()),
        stretches(chars@, bounds@) == split_fields(chars@),
{
    let mut bounds: Vec<(usize, usize)> = Vec::new();
    let mut start: usize = 0;
    let mut i: usize = 0;
    assert(stretches(chars@, bounds@).push(chars@.subrange(0, 0)) =~~= split_fields(
        chars@.take(0),
    ));
    while i < chars.len()
        invariant
            start <= i <= chars@.len(),
            within(bounds@, chars@.len()),
            stretches(chars@, bounds@).push(chars@.subrange(start as int, i as int))
                == split_fields(chars@.take(i as int)),
        decreases chars@.len() - i,
    {
        let ghost before = split_fields(chars@.take(i as int));
        assert(chars@.take(i + 1).drop_last() =~= chars@.take(i as int));
        if chars[i] == DELIMITER {
            bounds.push((start, i));
            start = i + 1;
            assert(stretches(chars@, bounds@).push(chars@.subrange(start as int, i + 1))
                =~~= before.push(Seq::<char>::empty()));
        } else {
            assert(chars@.subrange(start as int, i + 1) =~= chars@.subrange(
                start as int,
                i as int,
            ).push(chars@[i as int]));
        }
        i += 1;
    }
    bounds.push((start, i));
    assert(chars@.take(i as int) =~= chars@);
    bounds
}

/// Whether the escape token stands at position `i` of `s`.
pub open spec fn token_at(s: Seq<char>, i: int) -> bool {
    0 <= i && i + escape_token().len() <= s.len() && s.subrange(i, i + escape_token().len())
        == escape_token()
}

/// The free text that the field `s` stands for: each escape token, taken
/// from the left, becomes one delimiter, and every other character stays.
pub open spec fn unescape(s: Seq<char>) -> Seq<char>
    decreases s.len(),
{
    if s.len() == 0 {
        s
    } else if token_at(s, 0) {
        seq![DELIMITER] + unescape(s.skip(escape_token().len() as int))
    } else {
        seq![s[0]] + unescape(s.skip(1))
    }
}

/// An escape token in a field becomes a delimiter in the free text, whatever
/// stands before and after it.
pub proof fn lemma_unescape_token(before: Seq<char>, after: Seq<char>)
    ensures
        unescape(before + escape_token() + after) == unescape(before) + seq![DELIMITER] + unescape(
            after,
        ),
    decreases before.len(),
{
    let token = escape_token();
    let s = before + token + after;
    if before.len() == 0 {
        assert(s.subrange(0, 10) =~= token);
        assert(s.skip(10) =~= after);
    } else if token_at(before, 0) {
        assert(s.subrange(0, 10) =~= before.subrange(0, 10));
        assert(s.skip(10) =~= before.skip(10) + token + after);
        lemma_unescape_token(before.skip(10), after);
    } else {
        if token_at(s, 0) {
            let head = s.subrange(0, 10);
            if before.len() >= 10 {
                assert(before.subrange(0, 10) =~= head);
            } else {
                // The token would start anew inside itself, where it has no `$`.
                let k = before.len() as int;
                assert(head[k] == token[0]);
                assert(k == 1 || k == 2 || k == 3 || k == 4 || k == 5 || k == 6 || k == 7 || k
                    == 8 || k == 9);
            }
        }
        assert(s.skip(1) =~= before.skip(1) + token + after);
        lemma_unescape_token(before.skip(1), after);
    }
}

/// A field without a `$` stands for itself.
pub proof fn lemma_unescape_plain(s: Seq<char>)
    requires
        forall|i: int| 0 <= i < s.len() ==> s[i] != '$',
    ensures
        unescape(s) == s,
    decreases s.len(),
{
    if s.len() > 0 {
        lemma_unescape_plain(s.skip(1));
    }
}

/// The field that the producer writes for the free text `s`: the escape
/// token in place of each delimiter.
pub open spec fn escape(s: Seq<char>) -> Seq<char>
    decreases s.len(),
{
    if s.len() == 0 {
        s
    } else if s[0] == DELIMITER {
        escape_token() + escape(s.skip(1))
    } else {
        seq![s[0]] + escape(s.skip(1))
    }
}

/// Whether the escape token stands somewhere in `s`.
pub open spec fn holds_token(s: Seq<char>) -> bool {
    exists|i: int| token_at(s, i)
}

/// An escaped text holds no delimiter.
pub proof fn lemma_escape_is_plain(s: Seq<char>)
    ensures
        is_plain(escape(s)),
    decreases s.len(),
{
    if s.len() > 0 {
        lemma_escape_is_plain(s.skip(1));
    }
}

/// As far as an escaped text starts without a `$`, it is the text itself.
proof fn lemma_escape_prefix(s: Seq<char>, k: int)
    requires
        0 <= k <= escape(s).len(),
        forall|j: int| 0 <= j < k ==> escape(s)[j] != '$',
    ensures
        k <= s.len(),
        forall|j: int| 0 <= j < k ==> s[j] == escape(s)[j],
    decreases k,
{
    if k > 0 {
        assert(escape(s)[0] != '$');
        let rest = s.skip(1);
        assert forall|j: int| 0 <= j < k - 1 implies escape(rest)[j] != '$' by {
            assert(escape(rest)[j] == escape(s)[j + 1]);
        }
        lemma_escape_prefix(rest, k - 1);
        assert forall|j: int| 0 <= j < k implies s[j] == escape(s)[j] by {
            if j > 0 {
                assert(s[j] == rest[j - 1]);
            }
        }
    }
}

/// Free text comes back from its field as it was written, delimiters
/// included, unless the text itself holds the escape token.
pub proof fn lemma_escape_round_trip(s: Seq<char>)
    requires
        !holds_token(s),
    ensures
        unescape(escape(s)) == s,
    decreases s.len(),
{
    if s.len() > 0 {
        let rest = s.skip(1);
        assert(!holds_token(rest)) by {
            if holds_token(rest) {
                let i = choose|i: int| token_at(rest, i);
                assert(rest.subrange(i, i + 10) =~= s.subrange(i + 1, i + 11));
                assert(token_at(s, i + 1));
            }
        }
        lemma_escape_round_trip(rest);
        if s[0] == DELIMITER {
            lemma_unescape_token(Seq::<char>::empty(), escape(rest));
        } else {
            let field = escape(s);
            if token_at(field, 0) {
                // Then the token stands at the start of `s` as well.
                lemma_escape_prefix(rest, 9);
                assert forall|j: int| 0 <= j < 10 implies s.subrange(0, 10)[j] == escape_token()[j] by {
                    if j > 0 {
                        assert(s[j] == rest[j - 1]);
                    }
                }
                assert(s.subrange(0, 10) =~= escape_token());
                assert(token_at(s, 0));
            }
            assert(field.skip(1) =~= escape(rest));
        }
    }
}

/// Whether the escape token stands at `chars[i..]`, within `chars[..to]`.
fn has_token(chars: &[char], i: usize, to: usize) -> (found: bool)
    requires
        i <= to <= chars@.len(),
    ensures
        found == token_at(chars@.subrange(i as int, to as int), 0),
{
    let ghost rest = chars@.subrange(i as int, to as int);
    if to - i < 10 {
        return false;
    }
    let found = chars[i] == '$' && chars[i + 1] == 'S' && chars[i + 2] == 'E' && chars[i + 3] == 'M'
        && chars[i + 4] == 'I' && chars[i + 5] == 'C' && chars[i + 6] == 'O' && chars[i + 7] == 'L'
        && chars[i + 8] == 'O' && chars[i + 9] == 'N';
    assert(found ==> rest.subrange(0, 10) =~= escape_token());
    found
}

/// The free text that the field `chars[from..to]` stands for.
pub fn unescape_field(chars: &[char], from: usize, to: usize) -> (text: String)
    requires
        from <= to <= chars@.len(),
    ensures
        text@ == unescape(chars@.subrange(from as int, to as int)),
{
    let mut text = String::new();
    let mut i: usize = from;
    while i < to
        invariant
            from <= i <= to <= chars@.len(),
            text@ + unescape(chars@.subrange(i as int, to as int)) == unescape(
                chars@.subrange(from as int, to as int),
            ),
        decreases to - i,
    {
        let ghost rest = chars@.subrange(i as int, to as int);
        if has_token(chars, i, to) {
            text.push(DELIMITER);
            i += 10;
            assert(rest.skip(10) =~= chars@.subrange(i as int, to as int));
        } else {
            text.push(chars[i]);
            i += 1;
            assert(rest.skip(1) =~= chars@.subrange(i as int, to as int));
        }
    }
    text
}

} // verus!
