//! SVG path data and the document around it.
//!
//! Path data holds one command after another with a space between them:
//! `M x,y`, `L x,y`, `Q cx,cy x,y`, `C c1x,c1y c2x,c2y x,y` and `Z`, with no
//! space after the letter. A coordinate is written in font units as a
//! decimal number, exactly: 65536 is `1`, 98304 is `1.5`, -16384 is `-0.25`.

use vstd::prelude::*;
use vstd::string::*;
use crate::path::{PathCommand, VectorPath};
use crate::text::{join_with, lemma_join_push};

verus! {

/// The character for a digit from 0 to 9.
pub open spec fn digit_char(d: int) -> char {
    if d == 0 {
        '0'
    } else if d == 1 {
        '1'
    } else if d == 2 {
        '2'
    } else if d == 3 {
        '3'
    } else if d == 4 {
        '4'
    } else if d == 5 {
        '5'
    } else if d == 6 {
        '6'
    } else if d == 7 {
        '7'
    } else if d == 8 {
        '8'
    } else {
        '9'
    }
}

/// A natural number in decimal, without leading zeros.
pub open spec fn decimal_digits(n: nat) -> Seq<char>
    decreases n,
{
    if n < 10 {
        seq![digit_char(n as int)]
    } else {
        decimal_digits(n / 10).push(digit_char((n % 10) as int))
    }
}

/// The decimal places of `rest / 65536`, at most `places` of them and none
/// after the last that is not zero.
pub open spec fn fraction_digits(rest: nat, places: nat) -> Seq<char>
    decreases places,
{
    if rest == 0 || places == 0 {
        Seq::empty()
    } else {
        seq![digit_char((rest * 10 / 65536) as int)] + fraction_digits(
            rest * 10 % 65536,
            (places - 1) as nat,
        )
    }
}

/// The number of decimal places that any count of 65536ths needs.
pub const PLACES: u8 = 16;

/// A coordinate in font units, as a decimal number: a minus sign where it is
/// negative, the whole part, and a point with the decimal places where it
/// has any.
pub open spec fn coord_text(v: i64) -> Seq<char> {
    let size: nat = if v < 0 {
        (-v) as nat
    } else {
        v as nat
    };
    let sign = if v < 0 {
        seq!['-']
    } else {
        Seq::empty()
    };
    let places = if size % 65536 == 0 {
        Seq::empty()
    } else {
        seq!['.'] + fraction_digits(size % 65536, PLACES as nat)
    };
    sign + decimal_digits(size / 65536) + places
}

/// A point: its two coordinates with a comma between them.
pub open spec fn point_text(x: i64, y: i64) -> Seq<char> {
    coord_text(x) + seq![','] + coord_text(y)
}

/// One command of path data.
pub open spec fn command_text(command: PathCommand) -> Seq<char> {
    match command {
        PathCommand::MoveTo { x, y } => seq!['M'] + point_text(x, y),
        PathCommand::LineTo { x, y } => seq!['L'] + point_text(x, y),
        PathCommand::QuadTo { cx, cy, x, y } => seq!['Q'] + point_text(cx, cy) + seq![' ']
            + point_text(x, y),
        PathCommand::CubicTo { c1x, c1y, c2x, c2y, x, y } => seq!['C'] + point_text(c1x, c1y)
            + seq![' '] + point_text(c2x, c2y) + seq![' '] + point_text(x, y),
        PathCommand::Close => seq!['Z'],
    }
}

/// The path data of a path: its commands in order, with a space between
/// neighbours. The empty path has empty path data.
pub open spec fn path_text(path: Seq<PathCommand>) -> Seq<char> {
    join_with(path.map_values(|c: PathCommand| command_text(c)), ' ')
}

/// The SVG document around path data: a root element whose view box is the
/// em square, and in it a single path element.
pub open spec fn document_text(path_data: Seq<char>, units_per_em: u16) -> Seq<char> {
    "<svg viewBox=\"0 0 "@ + decimal_digits(units_per_em as nat) + " "@ + decimal_digits(
        units_per_em as nat,
    ) + "\"  xmlns=\"http://www.w3.org/2000/svg\">\n  <path d=\""@ + path_data
        + "\"/>\n</svg>\n"@
}

/// The digit that a character writes; a character that is no digit counts
/// as zero.
pub open spec fn digit_of(c: char) -> nat {
    if c == '1' {
        1
    } else if c == '2' {
        2
    } else if c == '3' {
        3
    } else if c == '4' {
        4
    } else if c == '5' {
        5
    } else if c == '6' {
        6
    } else if c == '7' {
        7
    } else if c == '8' {
        8
    } else if c == '9' {
        9
    } else {
        0
    }
}

/// The natural number that decimal digits write.
pub open spec fn number_of(digits: Seq<char>) -> nat
    decreases digits.len(),
{
    if digits.len() == 0 {
        0
    } else {
        10 * number_of(digits.drop_last()) + digit_of(digits.last())
    }
}

/// Ten to the power `n`.
pub open spec fn pow10(n: nat) -> nat
    decreases n,
{
    if n == 0 {
        1
    } else {
        10 * pow10((n - 1) as nat)
    }
}

/// What of `rest / 65536` the decimal places of [`fraction_digits`] leave
/// unwritten, as a count of 65536ths of the last place.
pub open spec fn left_over(rest: nat, places: nat) -> nat
    decreases places,
{
    if rest == 0 || places == 0 {
        rest
    } else {
        left_over(rest * 10 % 65536, (places - 1) as nat)
    }
}

proof fn lemma_number_of_digits(n: nat)
    ensures
        number_of(decimal_digits(n)) == n,
    decreases n,
{
    let digits = decimal_digits(n);
    if n >= 10 {
        lemma_number_of_digits(n / 10);
        assert(digits.drop_last() =~= decimal_digits(n / 10));
        assert(digits.last() == digit_char((n % 10) as int));
        assert(digit_of(digit_char((n % 10) as int)) == n % 10);
        assert(number_of(digits) == 10 * number_of(digits.drop_last()) + digit_of(digits.last()));
    } else {
        assert(digits.drop_last() =~= Seq::<char>::empty());
        assert(digits.last() == digit_char(n as int));
        assert(digit_of(digit_char(n as int)) == n);
        assert(number_of(digits.drop_last()) == 0);
        assert(number_of(digits) == 10 * number_of(digits.drop_last()) + digit_of(digits.last()));
    }
}

proof fn lemma_number_of_front(first: char, tail: Seq<char>)
    ensures
        number_of(seq![first] + tail) == digit_of(first) * pow10(tail.len()) + number_of(tail),
    decreases tail.len(),
{
    let all = seq![first] + tail;
    assert(number_of(all) == 10 * number_of(all.drop_last()) + digit_of(all.last()));
    if tail.len() == 0 {
        assert(all.drop_last() =~= Seq::<char>::empty());
        assert(all.last() == first);
        assert(number_of(all.drop_last()) == 0);
        assert(number_of(tail) == 0);
        assert(pow10(tail.len()) == 1);
        assert(digit_of(first) * 1 == digit_of(first)) by (nonlinear_arith);
    } else {
        assert(all.drop_last() =~= seq![first] + tail.drop_last());
        assert(all.last() == tail.last());
        lemma_number_of_front(first, tail.drop_last());
        let d = digit_of(first);
        let p = pow10(tail.drop_last().len());
        let n = number_of(tail.drop_last());
        assert(pow10(tail.len()) == 10 * p);
        assert(number_of(tail) == 10 * n + digit_of(tail.last()));
        assert(10 * (d * p + n) == d * (10 * p) + 10 * n) by (nonlinear_arith);
    }
}

proof fn lemma_fraction_value(rest: nat, places: nat)
    requires
        rest < 65536,
    ensures
        number_of(fraction_digits(rest, places)) * 65536 + left_over(rest, places) == rest * pow10(
            fraction_digits(rest, places).len(),
        ),
    decreases places,
{
    if rest == 0 || places == 0 {
        assert(fraction_digits(rest, places) =~= Seq::<char>::empty());
        assert(number_of(fraction_digits(rest, places)) == 0);
        assert(pow10(0) == 1);
        assert(rest * 1 == rest) by (nonlinear_arith);
    } else {
        let digit = rest * 10 / 65536;
        let next = rest * 10 % 65536;
        let tail = fraction_digits(next, (places - 1) as nat);
        lemma_fraction_value(next, (places - 1) as nat);
        lemma_number_of_front(digit_char(digit as int), tail);
        assert(fraction_digits(rest, places) =~= seq![digit_char(digit as int)] + tail);
        assert(digit_of(digit_char(digit as int)) == digit);
        let p = pow10(tail.len());
        let n = number_of(tail);
        let l = left_over(next, (places - 1) as nat);
        assert(rest * 10 == digit * 65536 + next);
        assert(pow10((tail.len() + 1) as nat) == 10 * p);
        assert((digit * p + n) * 65536 + l == rest * (10 * p)) by (nonlinear_arith)
            requires
                rest * 10 == digit * 65536 + next,
                n * 65536 + l == next * p,
        ;
        assert(fraction_digits(rest, places).len() == tail.len() + 1);
        assert(left_over(rest, places) == l);
    }
}

proof fn lemma_left_over(rest: nat, places: nat)
    requires
        rest < 65536,
    ensures
        left_over(rest, places) == rest * pow10(places) % 65536,
    decreases places,
{
    if rest == 0 {
        assert(rest * pow10(places) == 0) by (nonlinear_arith)
            requires
                rest == 0,
        ;
    } else if places == 0 {
        assert(rest * pow10(places) == rest) by (nonlinear_arith)
            requires
                pow10(places) == 1,
        ;
    } else {
        let next = rest * 10 % 65536;
        let p = pow10((places - 1) as nat);
        lemma_left_over(next, (places - 1) as nat);
        vstd::arithmetic::div_mod::lemma_mul_mod_noop_left((rest * 10) as int, p as int, 65536);
        assert(rest * 10 * p == rest * (10 * p)) by (nonlinear_arith);
    }
}

/// A coordinate is written exactly. The digits before the point write its
/// whole font units, and the digits after the point, read as a number over
/// the matching power of ten, write what remains: nothing is rounded, and
/// sixteen places always suffice.
pub proof fn lemma_coord_text_exact(size: nat)
    ensures
        number_of(decimal_digits(size / 65536)) == size / 65536,
        number_of(fraction_digits(size % 65536, PLACES as nat)) * 65536 == (size % 65536) * pow10(
            fraction_digits(size % 65536, PLACES as nat).len(),
        ),
{
    let rest = size % 65536;
    lemma_number_of_digits(size / 65536);
    lemma_fraction_value(rest, PLACES as nat);
    lemma_left_over(rest, PLACES as nat);
    reveal_with_fuel(pow10, 17);
    assert(pow10(16) == 152_587_890_625 * 65536);
    assert(rest * (152_587_890_625 * 65536) == (rest * 152_587_890_625) * 65536)
        by (nonlinear_arith);
    vstd::arithmetic::div_mod::lemma_mod_multiples_basic((rest * 152_587_890_625) as int, 65536);
}

fn digit_text(d: u8) -> (text: &'static str)
    requires
        d < 10,
    ensures
        text@ == seq![digit_char(d as int)],
{
    proof {
        reveal_strlit("0");
        reveal_strlit("1");
        reveal_strlit("2");
        reveal_strlit("3");
        reveal_strlit("4");
        reveal_strlit("5");
        reveal_strlit("6");
        reveal_strlit("7");
        reveal_strlit("8");
        reveal_strlit("9");
    }
    let text = if d == 0 {
        "0"
    } else if d == 1 {
        "1"
    } else if d == 2 {
        "2"
    } else if d == 3 {
        "3"
    } else if d == 4 {
        "4"
    } else if d == 5 {
        "5"
    } else if d == 6 {
        "6"
    } else if d == 7 {
        "7"
    } else if d == 8 {
        "8"
    } else {
        "9"
    };
    assert(text@ =~= seq![digit_char(d as int)]);
    text
}

fn push_number(out: &mut String, n: u64)
    ensures
        final(out)@ == old(out)@ + decimal_digits(n as nat),
    decreases n,
{
    if n >= 10 {
        push_number(out, n / 10);
    }
    out.append(digit_text((n % 10) as u8));
    assert(final(out)@ =~= old(out)@ + decimal_digits(n as nat));
}

fn push_fraction(out: &mut String, rest: u64)
    requires
        rest < 65536,
    ensures
        final(out)@ == old(out)@ + fraction_digits(rest as nat, PLACES as nat),
{
    let mut rest: u64 = rest;
    let mut places: u8 = PLACES;
    let ghost start = rest;
    while rest != 0 && places != 0
        invariant
            rest < 65536,
            places <= PLACES,
            old(out)@ + fraction_digits(start as nat, PLACES as nat) == out@ + fraction_digits(
                rest as nat,
                places as nat,
            ),
        decreases places,
    {
        let ghost before = out@;
        let ghost tail = fraction_digits((rest * 10 % 65536) as nat, (places - 1) as nat);
        let digit: u64 = rest * 10 / 65536;
        out.append(digit_text(digit as u8));
        assert(before + (seq![digit_char(digit as int)] + tail) =~= out@ + tail);
        rest = rest * 10 % 65536;
        places = places - 1;
    }
    assert(out@ + fraction_digits(rest as nat, places as nat) =~= out@);
}

fn push_coord(out: &mut String, v: i64)
    ensures
        final(out)@ == old(out)@ + coord_text(v),
{
    let size: u64 = if v < 0 {
        (-(v as i128)) as u64
    } else {
        v as u64
    };
    if v < 0 {
        out.append("-");
    }
    push_number(out, size / 65536);
    if size % 65536 != 0 {
        out.append(".");
        push_fraction(out, size % 65536);
    }
    proof {
        reveal_strlit("-");
        reveal_strlit(".");
        assert("-"@ =~= seq!['-']);
        assert("."@ =~= seq!['.']);
        assert(final(out)@ =~= old(out)@ + coord_text(v));
    }
}

fn push_point(out: &mut String, x: i64, y: i64)
    ensures
        final(out)@ == old(out)@ + point_text(x, y),
{
    push_coord(out, x);
    out.append(",");
    push_coord(out, y);
    proof {
        reveal_strlit(",");
        assert(","@ =~= seq![',']);
        assert(final(out)@ =~= old(out)@ + point_text(x, y));
    }
}

fn push_command(out: &mut String, command: &PathCommand)
    ensures
        final(out)@ == old(out)@ + command_text(*command),
{
    proof {
        reveal_strlit("M");
        reveal_strlit("L");
        reveal_strlit("Q");
        reveal_strlit("C");
        reveal_strlit("Z");
        reveal_strlit(" ");
        assert("M"@ =~= seq!['M']);
        assert("L"@ =~= seq!['L']);
        assert("Q"@ =~= seq!['Q']);
        assert("C"@ =~= seq!['C']);
        assert("Z"@ =~= seq!['Z']);
        assert(" "@ =~= seq![' ']);
    }
    match *command {
        PathCommand::MoveTo { x, y } => {
            out.append("M");
            push_point(out, x, y);
            assert(final(out)@ =~= old(out)@ + command_text(*command));
        },
        PathCommand::LineTo { x, y } => {
            out.append("L");
            push_point(out, x, y);
            assert(final(out)@ =~= old(out)@ + command_text(*command));
        },
        PathCommand::QuadTo { cx, cy, x, y } => {
            out.append("Q");
            push_point(out, cx, cy);
            out.append(" ");
            push_point(out, x, y);
            assert(final(out)@ =~= old(out)@ + command_text(*command));
        },
        PathCommand::CubicTo { c1x, c1y, c2x, c2y, x, y } => {
            out.append("C");
            push_point(out, c1x, c1y);
            out.append(" ");
            push_point(out, c2x, c2y);
            out.append(" ");
            push_point(out, x, y);
            assert(final(out)@ =~= old(out)@ + command_text(*command));
        },
        PathCommand::Close => {
            out.append("Z");
            assert(final(out)@ =~= old(out)@ + command_text(*command));
        },
    }
}

/// Writes a coordinate as a decimal number of font units.
pub fn format_coord(v: i64) -> (text: String)
    ensures
        text@ == coord_text(v),
{
    let mut text = String::new();
    push_coord(&mut text, v);
    assert(text@ =~= coord_text(v));
    text
}

/// Writes a path as SVG path data, command by command in path order.
pub fn path_data(path: &VectorPath) -> (text: String)
    ensures
        text@ == path_text(path@),
{
    let ghost pieces = path@.map_values(|c: PathCommand| command_text(c));
    let mut text = String::new();
    let mut i: usize = 0;
    assert(pieces.subrange(0, 0) =~= Seq::<Seq<char>>::empty());
    while i < path.commands.len()
        invariant
            i <= path.commands.len(),
            pieces == path@.map_values(|c: PathCommand| command_text(c)),
            text@ == join_with(pieces.subrange(0, i as int), ' '),
        decreases path.commands.len() - i,
    {
        let ghost before = text@;
        if i > 0 {
            text.append(" ");
        }
        push_command(&mut text, &path.commands[i]);
        proof {
            reveal_strlit(" ");
            assert(" "@ =~= seq![' ']);
            lemma_join_push(pieces.subrange(0, i as int), pieces[i as int], ' ');
            assert(pieces.subrange(0, i + 1) =~= pieces.subrange(0, i as int).push(
                pieces[i as int],
            ));
            if i > 0 {
                assert(text@ =~= before + seq![' '] + pieces[i as int]);
            } else {
                assert(text@ =~= pieces[i as int]);
            }
        }
        i += 1;
    }
    assert(pieces.subrange(0, i as int) =~= pieces);
    text
}

/// Wraps path data in a minimal SVG document whose view box is the em
/// square.
pub fn svg_document(path_data: &str, units_per_em: u16) -> (text: String)
    ensures
        text@ == document_text(path_data@, units_per_em),
{
    let mut text = String::new();
    text.append("<svg viewBox=\"0 0 ");
    push_number(&mut text, units_per_em as u64);
    text.append(" ");
    push_number(&mut text, units_per_em as u64);
    text.append("\"  xmlns=\"http://www.w3.org/2000/svg\">\n  <path d=\"");
    text.append(path_data);
    text.append("\"/>\n</svg>\n");
    assert(text@ =~= document_text(path_data@, units_per_em));
    text
}

} // verus!
