//! Resolving the values asked for against the axes a font has.

use vstd::prelude::*;
use crate::location::AxisValue;
use crate::single::{clamp, clamp_bits, lemma_key_orders_values, order_key, scaled_value};
use crate::tag::{code_of, tag_code};

verus! {

/// One axis of a font: its tag and, as single-precision bit patterns, the
/// least, the default and the greatest value it takes.
#[derive(Clone, Copy, Debug, PartialEq, Eq, Structural)]
pub struct AxisInfo {
    pub tag: u32,
    pub min: u32,
    pub default: u32,
    pub max: u32,
}

/// The value settled for one axis, as a single-precision bit pattern.
#[derive(Clone, Copy, Debug, PartialEq, Eq, Structural)]
pub struct ResolvedAxis {
    pub tag: u32,
    pub value: u32,
}

/// A position in design space: one value for each axis of the font, in the
/// font's order.
#[derive(Debug)]
pub struct DesignLocation {
    pub entries: Vec<ResolvedAxis>,
}

impl View for DesignLocation {
    type V = Seq<ResolvedAxis>;

    open spec fn view(&self) -> Seq<ResolvedAxis> {
        self.entries@
    }
}

/// The value of the last entry whose tag has the code `tag`, if any has.
pub open spec fn last_asked(values: Seq<AxisValue>, tag: u32) -> Option<u32>
    decreases values.len(),
{
    if values.len() == 0 {
        None
    } else if tag_code(values.last().tag@) == tag {
        Some(values.last().value)
    } else {
        last_asked(values.drop_last(), tag)
    }
}

/// The value an axis gets: the last one asked for it, held to the axis's
/// range, or the axis's default where none was asked.
pub open spec fn resolved_value(axis: AxisInfo, values: Seq<AxisValue>) -> u32 {
    match last_asked(values, axis.tag) {
        Some(value) => clamp_bits(value, axis.min, axis.max),
        None => axis.default,
    }
}

/// The position that the values select in a font with the given axes.
pub open spec fn resolved(axes: Seq<AxisInfo>, values: Seq<AxisValue>) -> Seq<ResolvedAxis> {
    Seq::new(
        axes.len(),
        |i: int| ResolvedAxis { tag: axes[i].tag, value: resolved_value(axes[i], values) },
    )
}

/// No axis has the tag that `text` writes.
pub open spec fn names_no_axis(axes: Seq<AxisInfo>, text: Seq<char>) -> bool {
    forall|i: int| 0 <= i < axes.len() ==> (#[trigger] axes[i]).tag != tag_code(text)
}

/// A value inside the range is kept; one outside becomes the bound it
/// passed; and holding a held value to the same range changes nothing.
pub proof fn lemma_clamp(value: u32, min: u32, max: u32)
    ensures
        order_key(min) <= order_key(value) <= order_key(max) ==> clamp_bits(value, min, max)
            == value,
        order_key(value) < order_key(min) ==> clamp_bits(value, min, max) == min,
        order_key(min) <= order_key(max) < order_key(value) ==> clamp_bits(value, min, max)
            == max,
        clamp_bits(clamp_bits(value, min, max), min, max) == clamp_bits(value, min, max),
{
}

/// What a range with its bounds in order holds a value to is a number from
/// the least to the greatest of the range.
pub proof fn lemma_clamp_between(value: u32, min: u32, max: u32)
    requires
        scaled_value(min) <= scaled_value(max),
    ensures
        scaled_value(min) <= scaled_value(clamp_bits(value, min, max)) <= scaled_value(max),
{
    lemma_key_orders_values(min, max);
    lemma_key_orders_values(max, min);
    lemma_key_orders_values(value, min);
    lemma_key_orders_values(min, value);
    lemma_key_orders_values(value, max);
    lemma_key_orders_values(max, value);
}

/// The last value asked for an axis decides, whatever was asked before.
pub proof fn lemma_last_write_wins(axis: AxisInfo, earlier: Seq<AxisValue>, last: AxisValue)
    requires
        tag_code(last.tag@) == axis.tag,
    ensures
        resolved_value(axis, earlier.push(last)) == clamp_bits(last.value, axis.min, axis.max),
{
    assert(earlier.push(last).last() == last);
}

proof fn lemma_last_asked_without(values: Seq<AxisValue>, at: int, tag: u32)
    requires
        0 <= at < values.len(),
        tag_code(values[at].tag@) != tag,
    ensures
        last_asked(values.remove(at), tag) == last_asked(values, tag),
    decreases values.len(),
{
    let rest = values.remove(at);
    if at == values.len() - 1 {
        assert(rest =~= values.drop_last());
    } else {
        assert(rest.last() == values.last());
        assert(rest.drop_last() =~= values.drop_last().remove(at));
        if tag_code(values.last().tag@) != tag {
            lemma_last_asked_without(values.drop_last(), at, tag);
        }
    }
}

/// A value whose tag names no axis of the font changes nothing.
pub proof fn lemma_unknown_tag_ignored(axes: Seq<AxisInfo>, values: Seq<AxisValue>, at: int)
    requires
        0 <= at < values.len(),
        names_no_axis(axes, values[at].tag@),
    ensures
        resolved(axes, values.remove(at)) == resolved(axes, values),
{
    assert forall|i: int| 0 <= i < axes.len() implies resolved_value(axes[i], values.remove(at))
        == resolved_value(axes[i], values) by {
        lemma_last_asked_without(values, at, axes[i].tag);
    }
    assert(resolved(axes, values.remove(at)) =~= resolved(axes, values));
}

/// An axis whose last asked value lies inside its range gets exactly that
/// value; one whose last asked value lies outside gets the bound that the
/// value passed.
pub proof fn lemma_resolved_in_and_out_of_range(axis: AxisInfo, values: Seq<AxisValue>)
    requires
        last_asked(values, axis.tag) is Some,
    ensures
        ({
            let value = last_asked(values, axis.tag).unwrap();
            &&& order_key(axis.min) <= order_key(value) <= order_key(axis.max)
                ==> resolved_value(axis, values) == value
            &&& order_key(value) < order_key(axis.min) ==> resolved_value(axis, values) == axis.min
            &&& order_key(axis.min) <= order_key(axis.max) < order_key(value) ==> resolved_value(
                axis,
                values,
            ) == axis.max
        }),
{
}

fn tag_codes(values: &Vec<AxisValue>) -> (codes: Vec<u32>)
    ensures
        codes@.len() == values@.len(),
        forall|i: int| 0 <= i < values@.len() ==> codes@[i] == tag_code(#[trigger] values@[i].tag@),
{
    let mut codes: Vec<u32> = Vec::new();
    let mut i: usize = 0;
    while i < values.len()
        invariant
            i <= values.len(),
            codes@.len() == i,
            forall|k: int| 0 <= k < i ==> codes@[k] == tag_code(#[trigger] values@[k].tag@),
        decreases values.len() - i,
    {
        codes.push(code_of(values[i].tag.as_str()));
        i += 1;
    }
    codes
}

/// Settles a value for every axis of the font.
///
/// An axis gets the last value whose tag names it, held to the axis's range,
/// or its default where no value names it. Values that name no axis have no
/// effect. The result has one entry per axis, in the order of `axes`.
pub fn resolve_location(axes: &Vec<AxisInfo>, values: &Vec<AxisValue>) -> (location:
    DesignLocation)
    ensures
        location@ == resolved(axes@, values@),
{
    let codes = tag_codes(values);
    let mut entries: Vec<ResolvedAxis> = Vec::new();
    let mut a: usize = 0;
    while a < axes.len()
        invariant
            a <= axes.len(),
            codes@.len() == values@.len(),
            forall|i: int|
                0 <= i < values@.len() ==> codes@[i] == tag_code(#[trigger] values@[i].tag@),
            entries@ == resolved(axes@, values@).subrange(0, a as int),
        decreases axes.len() - a,
    {
        let axis = axes[a];
        let mut asked: Option<u32> = None;
        let mut v: usize = 0;
        assert(values@.subrange(0, 0) =~= Seq::<AxisValue>::empty());
        while v < values.len()
            invariant
                v <= values.len(),
                codes@.len() == values@.len(),
                forall|i: int|
                    0 <= i < values@.len() ==> codes@[i] == tag_code(#[trigger] values@[i].tag@),
                asked == last_asked(values@.subrange(0, v as int), axis.tag),
            decreases values.len() - v,
        {
            proof {
                let upto = values@.subrange(0, v + 1);
                assert(upto.drop_last() =~= values@.subrange(0, v as int));
                assert(upto.last() == values@[v as int]);
            }
            if codes[v] == axis.tag {
                asked = Some(values[v].value);
            }
            v += 1;
        }
        assert(values@.subrange(0, v as int) =~= values@);
        let value = match asked {
            Some(bits) => clamp(bits, axis.min, axis.max),
            None => axis.default,
        };
        entries.push(ResolvedAxis { tag: axis.tag, value });
        assert(entries@ =~= resolved(axes@, values@).subrange(0, a + 1));
        a += 1;
    }
    assert(entries@ =~= resolved(axes@, values@));
    DesignLocation { entries }
}

/// The value of the first entry with the given tag, if any has it.
pub open spec fn value_for(entries: Seq<ResolvedAxis>, tag: u32) -> Option<u32>
    decreases entries.len(),
{
    if entries.len() == 0 {
        None
    } else if entries[0].tag == tag {
        Some(entries[0].value)
    } else {
        value_for(entries.drop_first(), tag)
    }
}

impl DesignLocation {
    /// The value settled for the first axis with the given tag.
    pub fn get(&self, tag: u32) -> (value: Option<u32>)
        ensures
            value == value_for(self@, tag),
    {
        let mut i: usize = 0;
        assert(self@.subrange(0, self@.len() as int) =~= self@);
        while i < self.entries.len()
            invariant
                i <= self.entries.len(),
                value_for(self@, tag) == value_for(self@.subrange(i as int, self@.len() as int), tag),
            decreases self.entries.len() - i,
        {
            let ghost rest = self@.subrange(i as int, self@.len() as int);
            assert(rest[0] == self@[i as int]);
            assert(rest.drop_first() =~= self@.subrange(i + 1, self@.len() as int));
            if self.entries[i].tag == tag {
                return Some(self.entries[i].value);
            }
            i += 1;
        }
        None
    }
}

} // verus!
