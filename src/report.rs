//! The lines the harnesses print, built from integers.
use vstd::prelude::*;
use crate::decimal::{decimal, digit_char, digits, lemma_decimal_digits, lemma_decimal_len, push_decimal};
use crate::reference::{byte_len, lemma_input_length, repeat};

verus! {

/// `"String length: "`
pub open spec fn length_label() -> Seq<char> {
    seq!['S', 't', 'r', 'i', 'n', 'g', ' ', 'l', 'e', 'n', 'g', 't', 'h', ':', ' ']
}

/// `"Time: "`
pub open spec fn time_label() -> Seq<char> {
    seq!['T', 'i', 'm', 'e', ':', ' ']
}

/// `" s"`
pub open spec fn seconds_unit() -> Seq<char> {
    seq![' ', 's']
}

/// The line that reports the input length.
pub open spec fn length_text(len: nat) -> Seq<char> {
    length_label() + decimal(len)
}

/// An elapsed time in nanoseconds, rounded to the nearest microsecond,
/// halves up.
pub open spec fn rounded_micros(nanos: nat) -> nat {
    (nanos + 500) / 1000
}

/// The last `w` decimal digits of `v`, with leading zeros.
pub open spec fn padded(v: nat, w: nat) -> Seq<char>
    decreases w,
{
    if w == 0 {
        Seq::empty()
    } else {
        padded(v / 10, (w - 1) as nat).push(digit_char(v % 10))
    }
}

/// The line that reports an elapsed time: whole seconds, a point, and six
/// digits of fraction.
pub open spec fn time_text(nanos: nat) -> Seq<char> {
    let m = rounded_micros(nanos);
    time_label() + decimal(m / 1000000) + seq!['.'] + padded(m % 1000000, 6) + seconds_unit()
}

/// Appends the last `w` decimal digits of `v` to `out`, with leading zeros.
fn push_padded(out: &mut String, v: u64, w: u64)
    ensures
        final(out)@ == old(out)@ + padded(v as nat, w as nat),
    decreases w,
{
    if w > 0 {
        push_padded(out, v / 10, w - 1);
        let ghost mid = out@;
        let d = "0123456789";
        proof {
            reveal_strlit("0123456789");
            assert(d@ =~= digits());
        }
        out.append(d.substring_ascii((v % 10) as usize, (v % 10) as usize + 1));
        assert(out@ =~= old(out)@ + padded(v as nat, w as nat));
    }
}

/// The length line: `String length: ` and the length in decimal.
pub fn length_line(len: usize) -> (r: String)
    ensures
        r@ == length_text(len as nat),
{
    let label = "String length: ";
    proof {
        reveal_strlit("String length: ");
        assert(label@ =~= length_label());
    }
    let mut r = String::from_str(label);
    push_decimal(&mut r, len as u64);
    r
}

/// The time line: `Time: `, the elapsed seconds with six decimals, and ` s`.
pub fn time_line(nanos: u64) -> (r: String)
    ensures
        r@ == time_text(nanos as nat),
{
    let label = "Time: ";
    let point = ".";
    let unit = " s";
    proof {
        reveal_strlit("Time: ");
        reveal_strlit(".");
        reveal_strlit(" s");
        assert(label@ =~= time_label());
        assert(unit@ =~= seconds_unit());
    }
    let micros: u64 = nanos / 1000 + if nanos % 1000 >= 500 { 1u64 } else { 0u64 };
    assert(micros as nat == rounded_micros(nanos as nat));
    let mut r = String::from_str(label);
    push_decimal(&mut r, micros / 1000000);
    r.append(point);
    push_padded(&mut r, micros % 1000000, 6);
    r.append(unit);
    assert(r@ =~= time_text(nanos as nat));
    r
}

/// `padded` has exactly `w` characters, each a digit.
pub proof fn lemma_padded_digits(v: nat, w: nat)
    ensures
        padded(v, w).len() == w,
        forall|k: int| 0 <= k < w ==> digits().contains(#[trigger] padded(v, w)[k]),
    decreases w,
{
    if w > 0 {
        lemma_padded_digits(v / 10, (w - 1) as nat);
        assert forall|k: int| 0 <= k < w implies digits().contains(#[trigger] padded(v, w)[k]) by {
            if k < w - 1 {
                assert(padded(v, w)[k] == padded(v / 10, (w - 1) as nat)[k]);
            } else {
                assert(digits()[(v % 10) as int] == padded(v, w)[k]);
            }
        }
    }
}

/// A longer elapsed time is never reported as a shorter one.
pub proof fn lemma_time_monotone(a: nat, b: nat)
    requires
        a <= b,
    ensures
        rounded_micros(a) <= rounded_micros(b),
{
    assert((a + 500) / 1000 <= (b + 500) / 1000) by (nonlinear_arith)
        requires a <= b;
}

/// Two runs print lines of one shape. The length line depends only on the
/// template and the repetition count, and is the byte length of the template
/// times that count. Whatever the two elapsed times, both time lines start
/// with `Time: `, end with ` s`, and hold a point followed by exactly six
/// digits before the unit, with only digits between the label and the point.
pub proof fn lemma_runs_agree(template: Seq<char>, n: nat, first: nat, second: nat)
    ensures
        length_text(byte_len(repeat(template, n))) == length_text(byte_len(template) * n),
        time_shape(time_text(first)),
        time_shape(time_text(second)),
{
    lemma_input_length(template, n);
    lemma_time_shape(first);
    lemma_time_shape(second);
}

/// `line` is `Time: `, one or more digits, a point, six digits and ` s`.
pub open spec fn time_shape(line: Seq<char>) -> bool {
    &&& line.len() >= 16
    &&& line.subrange(0, 6) == time_label()
    &&& line.subrange(line.len() - 2, line.len() as int) == seconds_unit()
    &&& line[line.len() - 9] == '.'
    &&& forall|k: int| 6 <= k < line.len() - 2 && k != line.len() - 9 ==> digits().contains(#[trigger] line[k])
}

/// Every time line has the shape `time_shape` describes.
pub proof fn lemma_time_shape(nanos: nat)
    ensures
        time_shape(time_text(nanos)),
{
    let m = rounded_micros(nanos);
    let whole = decimal(m / 1000000);
    let frac = padded(m % 1000000, 6);
    let line = time_text(nanos);
    lemma_decimal_len(m / 1000000);
    lemma_decimal_digits(m / 1000000);
    lemma_padded_digits(m % 1000000, 6);
    let w = whole.len() as int;
    assert(line.len() == 6 + w + 1 + 6 + 2);
    assert(line.subrange(0, 6) =~= time_label());
    assert(line.subrange(line.len() - 2, line.len() as int) =~= seconds_unit());
    assert(line[line.len() - 9] == '.');
    assert forall|k: int| 6 <= k < line.len() - 2 && k != line.len() - 9 implies digits().contains(
        #[trigger] line[k],
    ) by {
        if k < 6 + w {
            assert(line[k] == whole[k - 6]);
        } else {
            assert(line[k] == frac[k - 7 - w]);
        }
    }
}

} // verus!
