//! Reading a string character by character, and joining pieces of text.

use vstd::prelude::*;
use vstd::string::*;

verus! {

/// The pieces written one after another with `sep` between neighbours.
pub open spec fn join_with(pieces: Seq<Seq<char>>, sep: char) -> Seq<char>
    decreases pieces.len(),
{
    if pieces.len() == 0 {
        Seq::empty()
    } else if pieces.len() == 1 {
        pieces[0]
    } else {
        pieces[0] + seq![sep] + join_with(pieces.drop_first(), sep)
    }
}

/// Adding one more piece to a join.
pub(crate) proof fn lemma_join_push(pieces: Seq<Seq<char>>, last: Seq<char>, sep: char)
    ensures
        join_with(pieces.push(last), sep) == if pieces.len() == 0 {
            last
        } else {
            join_with(pieces, sep) + seq![sep] + last
        },
    decreases pieces.len(),
{
    let all = pieces.push(last);
    if pieces.len() == 0 {
        assert(all[0] == last);
    } else {
        let tail = pieces.drop_first();
        lemma_join_push(tail, last, sep);
        assert(all.drop_first() =~= tail.push(last));
        assert(all[0] == pieces[0]);
        if tail.len() == 0 {
            assert(join_with(pieces, sep) == pieces[0]);
        } else {
            assert(join_with(all, sep) =~= pieces[0] + seq![sep] + (join_with(tail, sep) + seq![
                sep,
            ] + last));
            assert(join_with(pieces, sep) + seq![sep] + last =~= pieces[0] + seq![sep] + (
                join_with(tail, sep) + seq![sep] + last
            ));
        }
    }
}

/// The characters of `s`, in order.
pub fn to_chars(s: &str) -> (out: Vec<char>)
    ensures
        out@ == s@,
{
    broadcast use group_string_axioms;

    let mut out: Vec<char> = Vec::new();
    for c in it: s.chars()
        invariant
            it.seq() == s@,
            out@ == s@.subrange(0, it.index() as int),
    {
        out.push(c);
        assert(out@ =~= s@.subrange(0, it.index() + 1));
    }
    assert(out@ =~= s@);
    out
}

} // verus!
