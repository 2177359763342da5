//! The location string: `tag:value` pairs separated by commas.
//!
//! The grammar is settled here, on characters. Turning the text of a value
//! into a number is left to the caller, who hands the reading back.

use vstd::prelude::*;
use vstd::string::*;
use crate::error::VectorDrawableError;
use crate::single::{finite, is_finite};
use crate::text::{join_with, lemma_join_push, to_chars};

verus! {

/// One `tag:value` pair, as the characters on either side of the colon.
pub struct FieldText {
    pub tag: Seq<char>,
    pub value: Seq<char>,
}

/// One `tag:value` pair of a location string, both sides still text.
#[derive(Clone, Debug)]
pub struct LocationField {
    pub tag: String,
    pub value: String,
}

impl View for LocationField {
    type V = FieldText;

    open spec fn view(&self) -> FieldText {
        FieldText { tag: self.tag@, value: self.value@ }
    }
}

/// An axis tag with the value asked for on that axis. The value is the bit
/// pattern of a finite single-precision number.
#[derive(Clone, Debug)]
pub struct AxisValue {
    pub tag: String,
    pub value: u32,
}

/// The position of the first `sep` at or after `start`, or the length of
/// `s` where there is none.
pub open spec fn next_sep(s: Seq<char>, start: int, sep: char) -> int
    decreases s.len() - start,
{
    if start >= s.len() {
        s.len() as int
    } else if s[start] == sep {
        start
    } else {
        next_sep(s, start + 1, sep)
    }
}

/// The pieces of `s` from `start` on that lie between occurrences of `sep`.
/// There is always at least one piece, and a piece may be empty.
pub open spec fn split_from(s: Seq<char>, start: int, sep: char) -> Seq<Seq<char>>
    decreases s.len() - start,
{
    let end = next_sep(s, start, sep);
    if start <= end && end < s.len() {
        seq![s.subrange(start, end)] + split_from(s, end + 1, sep)
    } else {
        seq![s.subrange(start, s.len() as int)]
    }
}

/// The pieces of `s` between occurrences of `sep`.
pub open spec fn split_on(s: Seq<char>, sep: char) -> Seq<Seq<char>> {
    split_from(s, 0, sep)
}

/// The pair that a segment writes: it must fall into exactly two pieces at
/// its colons.
pub open spec fn field_of(segment: Seq<char>) -> Option<FieldText> {
    let parts = split_on(segment, ':');
    if parts.len() == 2 {
        Some(FieldText { tag: parts[0], value: parts[1] })
    } else {
        None
    }
}

/// The pairs that a location string writes, in order, or `None` where some
/// segment between commas is no pair. The empty string writes no pair.
pub open spec fn location_fields(raw: Seq<char>) -> Option<Seq<FieldText>> {
    if raw.len() == 0 {
        Some(Seq::empty())
    } else {
        let segments = split_on(raw, ',');
        if forall|i: int| 0 <= i < segments.len() ==> (#[trigger] field_of(segments[i])) is Some {
            Some(Seq::new(segments.len(), |i: int| field_of(segments[i]).unwrap()))
        } else {
            None
        }
    }
}

/// The text of one pair.
pub open spec fn field_text(field: FieldText) -> Seq<char> {
    field.tag + seq![':'] + field.value
}

/// The location string that writes the given pairs.
pub open spec fn join_fields(fields: Seq<FieldText>) -> Seq<char> {
    join_with(fields.map_values(|f: FieldText| field_text(f)), ',')
}

/// The views of a sequence of fields.
pub open spec fn field_views(fields: Seq<LocationField>) -> Seq<FieldText> {
    fields.map_values(|f: LocationField| f@)
}

/// What one pair becomes once its value has been read: the reading must be
/// the pattern of a finite number.
pub open spec fn reading_accepted(reading: Option<u32>) -> bool {
    reading matches Some(bits) && is_finite(bits)
}

/// `read` may answer `reading` when asked for the number that `text` writes.
pub open spec fn reads_as<F: Fn(&str) -> Option<u32>>(
    read: F,
    text: Seq<char>,
    reading: Option<u32>,
) -> bool {
    exists|t: &str| t@ == text && #[trigger] read.ensures((t,), reading)
}

/// Each value is its pair's tag with a finite number that `read` gave for
/// the pair's value text.
pub open spec fn values_read<F: Fn(&str) -> Option<u32>>(
    read: F,
    fields: Seq<FieldText>,
    values: Seq<AxisValue>,
) -> bool {
    &&& values.len() == fields.len()
    &&& forall|i: int|
        0 <= i && i < fields.len() ==> {
            &&& (#[trigger] values[i]).tag@ == fields[i].tag
            &&& is_finite(values[i].value)
            &&& reads_as(read, fields[i].value, Some(values[i].value))
        }
}

/// For some pair, `read` gave a reading that is no finite number.
pub open spec fn reading_refused<F: Fn(&str) -> Option<u32>>(
    read: F,
    fields: Seq<FieldText>,
) -> bool {
    exists|i: int, reading: Option<u32>|
        0 <= i && i < fields.len() && #[trigger] reads_as(read, fields[i].value, reading)
            && !reading_accepted(reading)
}

proof fn lemma_next_sep_found(s: Seq<char>, start: int, at: int, sep: char)
    requires
        0 <= start <= at <= s.len(),
        forall|k: int| start <= k < at ==> s[k] != sep,
        at == s.len() || s[at] == sep,
    ensures
        next_sep(s, start, sep) == at,
    decreases at - start,
{
    if start < at {
        lemma_next_sep_found(s, start + 1, at, sep);
    }
}

proof fn lemma_next_sep_is_first(s: Seq<char>, start: int, sep: char)
    requires
        0 <= start <= s.len(),
    ensures
        start <= next_sep(s, start, sep) <= s.len(),
        forall|k: int| start <= k < next_sep(s, start, sep) ==> s[k] != sep,
        next_sep(s, start, sep) < s.len() ==> s[next_sep(s, start, sep)] == sep,
    decreases s.len() - start,
{
    if start < s.len() && s[start] != sep {
        lemma_next_sep_is_first(s, start + 1, sep);
    }
}

proof fn lemma_split_nonempty(s: Seq<char>, start: int, sep: char)
    ensures
        split_from(s, start, sep).len() >= 1,
    decreases s.len() - start,
{
    let end = next_sep(s, start, sep);
    if start <= s.len() && start <= end && end < s.len() {
        lemma_split_nonempty(s, end + 1, sep);
    }
}

/// Joining what a split gave restores the text that was split.
proof fn lemma_join_split(s: Seq<char>, start: int, sep: char)
    requires
        0 <= start <= s.len(),
    ensures
        join_with(split_from(s, start, sep), sep) == s.subrange(start, s.len() as int),
    decreases s.len() - start,
{
    lemma_next_sep_is_first(s, start, sep);
    let end = next_sep(s, start, sep);
    if end < s.len() {
        let rest = split_from(s, end + 1, sep);
        let pieces = split_from(s, start, sep);
        lemma_split_nonempty(s, end + 1, sep);
        lemma_join_split(s, end + 1, sep);
        assert(pieces.drop_first() =~= rest);
        assert(pieces[0] == s.subrange(start, end));
        assert(s.subrange(start, end) + seq![sep] + s.subrange(end + 1, s.len() as int)
            =~= s.subrange(start, s.len() as int));
    }
}

/// A segment with its first colon at `first` and its next one at `second`
/// (each the segment's length where there is none) is a pair exactly when
/// it has the first colon and lacks the second.
proof fn lemma_field_of(segment: Seq<char>, first: int, second: int)
    requires
        0 <= first <= segment.len(),
        forall|k: int| 0 <= k < first ==> segment[k] != ':',
        first < segment.len() ==> segment[first] == ':',
        first < segment.len() ==> first < second <= segment.len(),
        first < segment.len() ==> forall|k: int| first < k < second ==> segment[k] != ':',
        first < segment.len() && second < segment.len() ==> segment[second] == ':',
    ensures
        first < segment.len() && second == segment.len() ==> field_of(segment) == Some(
            FieldText {
                tag: segment.subrange(0, first),
                value: segment.subrange(first + 1, segment.len() as int),
            },
        ),
        !(first < segment.len() && second == segment.len()) ==> field_of(segment) is None,
{
    reveal_with_fuel(split_from, 3);
    lemma_next_sep_found(segment, 0, first, ':');
    if first < segment.len() {
        lemma_next_sep_found(segment, first + 1, second, ':');
        let rest = split_from(segment, first + 1, ':');
        assert(split_on(segment, ':') =~= seq![segment.subrange(0, first)] + rest);
        if second < segment.len() {
            lemma_split_nonempty(segment, second + 1, ':');
            assert(rest =~= seq![segment.subrange(first + 1, second)] + split_from(
                segment,
                second + 1,
                ':',
            ));
        } else {
            assert(rest =~= seq![segment.subrange(first + 1, segment.len() as int)]);
        }
    } else {
        assert(split_on(segment, ':') =~= seq![segment.subrange(0, segment.len() as int)]);
    }
}

/// A pair's text is the segment it was read from.
proof fn lemma_field_text(segment: Seq<char>)
    requires
        field_of(segment) is Some,
    ensures
        field_text(field_of(segment).unwrap()) == segment,
{
    let parts = split_on(segment, ':');
    lemma_join_split(segment, 0, ':');
    assert(parts.drop_first().len() == 1);
    assert(join_with(parts.drop_first(), ':') == parts[1]);
    assert(segment.subrange(0, segment.len() as int) =~= segment);
}

/// Writing out the pairs of a valid location string gives that string back,
/// so reading the result again yields the same pairs.
pub proof fn lemma_location_round_trip(raw: Seq<char>)
    requires
        location_fields(raw) is Some,
    ensures
        join_fields(location_fields(raw).unwrap()) == raw,
        location_fields(join_fields(location_fields(raw).unwrap())) == location_fields(raw),
{
    let fields = location_fields(raw).unwrap();
    if raw.len() == 0 {
        assert(fields.map_values(|f: FieldText| field_text(f)) =~= Seq::<Seq<char>>::empty());
    } else {
        let segments = split_on(raw, ',');
        let texts = fields.map_values(|f: FieldText| field_text(f));
        assert forall|i: int| 0 <= i < segments.len() implies texts[i] == segments[i] by {
            assert(field_of(segments[i]) is Some);
            lemma_field_text(segments[i]);
        }
        assert(texts =~= segments);
        lemma_join_split(raw, 0, ',');
        assert(raw.subrange(0, raw.len() as int) =~= raw);
    }
}

fn find(chars: &Vec<char>, from: usize, to: usize, sep: char) -> (at: usize)
    requires
        from <= to <= chars@.len(),
    ensures
        from <= at <= to,
        at < to ==> chars@[at as int] == sep,
        forall|k: int| from <= k < at ==> chars@[k] != sep,
{
    let mut at: usize = from;
    while at < to && chars[at] != sep
        invariant
            from <= at <= to <= chars@.len(),
            forall|k: int| from <= k < at ==> chars@[k] != sep,
        decreases to - at,
    {
        at += 1;
    }
    at
}

/// Splits a location string into its pairs, without reading the values.
///
/// Fails exactly when the string is not empty and some segment between
/// commas does not consist of two parts around a single colon.
pub fn split_location(raw: &str) -> (r: Result<Vec<LocationField>, VectorDrawableError>)
    ensures
        match r {
            Ok(fields) => location_fields(raw@) == Some(field_views(fields@)),
            Err(e) => e == VectorDrawableError::MalformedLocation && location_fields(raw@) is None,
        },
{
    let chars = to_chars(raw);
    let n: usize = chars.len();
    let mut out: Vec<LocationField> = Vec::new();
    if n == 0 {
        assert(field_views(out@) =~= Seq::<FieldText>::empty());
        return Ok(out);
    }
    let ghost s = raw@;
    let ghost mut done: Seq<Seq<char>> = Seq::empty();
    let mut pos: usize = 0;
    assert(done + split_from(s, 0, ',') =~= split_on(s, ','));
    loop
        invariant
            chars@ == s,
            s == raw@,
            n == s.len(),
            n > 0,
            pos <= n,
            split_on(s, ',') == done + split_from(s, pos as int, ','),
            out@.len() == done.len(),
            forall|i: int| 0 <= i < done.len() ==> field_of(done[i]) == Some(#[trigger] out@[i]@),
        decreases n - pos,
    {
        let end = find(&chars, pos, n, ',');
        let first = find(&chars, pos, end, ':');
        let second = if first < end {
            find(&chars, first + 1, end, ':')
        } else {
            end
        };
        let ghost segment = s.subrange(pos as int, end as int);
        proof {
            lemma_next_sep_found(s, pos as int, end as int, ',');
            lemma_field_of(segment, first - pos, second - pos);
            if end < n {
                lemma_split_nonempty(s, end + 1, ',');
            }
            assert(split_on(s, ',')[done.len() as int] == segment);
        }
        if first == end || second != end {
            assert(field_of(split_on(s, ',')[done.len() as int]) is None);
            return Err(VectorDrawableError::MalformedLocation);
        }
        let tag = String::from_str(raw.substring_char(pos, first));
        let value = String::from_str(raw.substring_char(first + 1, end));
        let field = LocationField { tag, value };
        proof {
            assert(segment.subrange(0, first - pos) =~= s.subrange(pos as int, first as int));
            assert(segment.subrange(first - pos + 1, segment.len() as int) =~= s.subrange(
                first + 1,
                end as int,
            ));
            assert(field_of(segment) == Some(field@));
        }
        out.push(field);
        proof {
            done = done.push(segment);
        }
        if end == n {
            proof {
                let segments = split_on(s, ',');
                assert(segments =~= done);
                assert forall|i: int| 0 <= i < segments.len() implies (#[trigger] field_of(
                    segments[i],
                )) is Some by {
                    assert(field_of(done[i]) == Some(out@[i]@));
                }
                assert(Seq::new(segments.len(), |i: int| field_of(segments[i]).unwrap())
                    =~= field_views(out@));
            }
            return Ok(out);
        }
        proof {
            assert(split_from(s, pos as int, ',') =~= seq![segment] + split_from(
                s,
                end + 1,
                ',',
            ));
            assert(split_on(s, ',') =~= done + split_from(s, end + 1, ','));
        }
        pos = end + 1;
    }
}

/// Writes pairs out as a location string.
pub fn join_location(fields: &Vec<LocationField>) -> (out: String)
    ensures
        out@ == join_fields(field_views(fields@)),
{
    let ghost texts = field_views(fields@).map_values(|f: FieldText| field_text(f));
    let mut out = String::new();
    let mut i: usize = 0;
    assert(texts.subrange(0, 0) =~= Seq::<Seq<char>>::empty());
    while i < fields.len()
        invariant
            i <= fields.len(),
            texts == field_views(fields@).map_values(|f: FieldText| field_text(f)),
            out@ == join_with(texts.subrange(0, i as int), ','),
        decreases fields.len() - i,
    {
        let ghost before = out@;
        if i > 0 {
            out.append(",");
        }
        out.append(fields[i].tag.as_str());
        out.append(":");
        out.append(fields[i].value.as_str());
        proof {
            reveal_strlit(",");
            reveal_strlit(":");
            lemma_join_push(texts.subrange(0, i as int), texts[i as int], ',');
            assert(texts.subrange(0, i + 1) =~= texts.subrange(0, i as int).push(texts[i as int]));
            assert(texts[i as int] == fields@[i as int].tag@ + seq![':'] + fields@[i as int].value@);
            assert(",".view() =~= seq![',']);
            assert(":".view() =~= seq![':']);
            if i > 0 {
                assert(out@ =~= before + seq![','] + texts[i as int]);
            } else {
                assert(out@ =~= texts[i as int]);
            }
        }
        i += 1;
    }
    assert(texts.subrange(0, i as int) =~= texts);
    out
}

/// Makes an axis value of a tag and the reading of its value text.
///
/// `reading` is what the caller's number reader made of the text: `None`
/// where the text is no number. The pair is refused unless the reading is
/// the pattern of a finite number.
pub fn axis_value(tag: String, reading: Option<u32>) -> (r: Result<AxisValue, VectorDrawableError>)
    ensures
        match r {
            Ok(v) => reading == Some(v.value) && is_finite(v.value) && v.tag == tag,
            Err(e) => e == VectorDrawableError::MalformedLocation && !reading_accepted(reading),
        },
{
    match reading {
        Some(bits) => {
            if finite(bits) {
                Ok(AxisValue { tag, value: bits })
            } else {
                Err(VectorDrawableError::MalformedLocation)
            }
        },
        None => Err(VectorDrawableError::MalformedLocation),
    }
}

/// Reads a location string into axis values, in the order written.
///
/// `read` turns the text of one value into the bit pattern of a
/// single-precision number, or `None` where the text is no number. It is
/// asked once per pair, from the left, until a reading is refused.
///
/// The result is `Ok` exactly when the string is well formed and every
/// reading was the pattern of a finite number; duplicates are kept.
pub fn parse_location<F: Fn(&str) -> Option<u32>>(raw: &str, read: F) -> (r: Result<
    Vec<AxisValue>,
    VectorDrawableError,
>)
    requires
        forall|t: &str| read.requires((t,)),
    ensures
        match location_fields(raw@) {
            None => r == Err::<Vec<AxisValue>, _>(VectorDrawableError::MalformedLocation),
            Some(fields) => match r {
                Ok(values) => values_read(read, fields, values@),
                Err(e) => e == VectorDrawableError::MalformedLocation && reading_refused(
                    read,
                    fields,
                ),
            },
        },
{
    let fields = match split_location(raw) {
        Ok(fields) => fields,
        Err(e) => {
            return Err(e);
        },
    };
    let ghost texts = field_views(fields@);
    let mut out: Vec<AxisValue> = Vec::new();
    let mut i: usize = 0;
    while i < fields.len()
        invariant
            i <= fields.len(),
            texts == field_views(fields@),
            location_fields(raw@) == Some(texts),
            forall|t: &str| read.requires((t,)),
            out@.len() == i,
            forall|k: int|
                0 <= k && k < i ==> {
                    &&& (#[trigger] out@[k]).tag@ == texts[k].tag
                    &&& is_finite(out@[k].value)
                    &&& reads_as(read, texts[k].value, Some(out@[k].value))
                },
        decreases fields.len() - i,
    {
        let text = fields[i].value.as_str();
        let reading = read(text);
        assert(reads_as(read, texts[i as int].value, reading)) by {
            assert(text@ == texts[i as int].value);
            assert(read.ensures((text,), reading));
        }
        match axis_value(fields[i].tag.clone(), reading) {
            Ok(v) => {
                out.push(v);
            },
            Err(e) => {
                assert(reading_refused(read, texts)) by {
                    assert(reads_as(read, texts[i as int].value, reading));
                }
                return Err(e);
            },
        }
        i += 1;
    }
    Ok(out)
}

} // verus!
