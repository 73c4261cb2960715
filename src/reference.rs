//! The reference-timing harness: builds one large string once, then times
//! calls that hand back a borrow of it without copying.
use vstd::prelude::*;
use vstd::utf8::encode_utf8;
use crate::barrier::observe;

verus! {

/// The text that the harness input repeats.
pub const TEMPLATE: &'static str = "Lorem ipsum ";

/// Number of copies of the template in the harness input.
pub const REPETITIONS: usize = 1000000;

/// Number of iterations of the reference harness.
pub const REFERENCE_ITERATIONS: u64 = 10000000;

/// `n` copies of `t`, one after another.
pub open spec fn repeat(t: Seq<char>, n: nat) -> Seq<char>
    decreases n,
{
    if n == 0 {
        Seq::empty()
    } else {
        repeat(t, (n - 1) as nat) + t
    }
}

/// Length in bytes of the UTF-8 encoding of `s`, which is what `str::len`
/// counts.
pub open spec fn byte_len(s: Seq<char>) -> nat {
    encode_utf8(s).len()
}

/// The encoding of two texts one after another is the two encodings one
/// after another.
pub proof fn lemma_encode_concat(a: Seq<char>, b: Seq<char>)
    ensures
        encode_utf8(a + b) == encode_utf8(a) + encode_utf8(b),
    decreases a.len(),
{
    if a.len() == 0 {
        assert(a + b =~= b);
        assert(encode_utf8(a) =~= Seq::<u8>::empty());
        assert(encode_utf8(a) + encode_utf8(b) =~= encode_utf8(b));
    } else {
        assert((a + b).drop_first() =~= a.drop_first() + b);
        assert((a + b)[0] == a[0]);
        lemma_encode_concat(a.drop_first(), b);
        assert(encode_utf8(a + b) =~= encode_utf8(a) + encode_utf8(b));
    }
}

/// The input of `n` copies of `t` is exactly `n` times as long as `t`, in
/// bytes as in characters.
pub proof fn lemma_input_length(t: Seq<char>, n: nat)
    ensures
        byte_len(repeat(t, n)) == byte_len(t) * n,
        repeat(t, n).len() == t.len() * n,
    decreases n,
{
    if n == 0 {
        assert(encode_utf8(Seq::<char>::empty()) =~= Seq::<u8>::empty());
    } else {
        lemma_input_length(t, (n - 1) as nat);
        lemma_encode_concat(repeat(t, (n - 1) as nat), t);
        assert(byte_len(t) * n == byte_len(t) * (n - 1) + byte_len(t)) by (nonlinear_arith);
        assert(t.len() * n == t.len() * (n - 1) + t.len()) by (nonlinear_arith);
    }
}

/// The harness input: `repetitions` copies of `template`. The byte length of
/// the result must fit in a `usize`.
pub fn build_input(template: &str, repetitions: usize) -> (r: String)
    requires
        byte_len(template@) * repetitions <= usize::MAX,
    ensures
        r@ == repeat(template@, repetitions as nat),
{
    let mut r = String::new();
    let mut k: usize = 0;
    while k < repetitions
        invariant
            k <= repetitions,
            r@ == repeat(template@, k as nat),
        decreases repetitions - k,
    {
        r.append(template);
        k = k + 1;
        assert(r@ == repeat(template@, k as nat));
    }
    r
}

/// Length in bytes of `s`, the figure the harness prints.
pub fn input_length(s: &String) -> (r: usize)
    requires
        byte_len(s@) <= usize::MAX,
    ensures
        r == byte_len(s@),
{
    s.as_str().len()
}

/// The operation under test: hands back a borrow of its argument, with no
/// copy and no allocation.
#[inline]
pub fn f(x: &String) -> (r: &String)
    ensures
        r == x,
{
    x
}

/// The timed loop: calls `f` on `input` `iterations` times and passes each
/// borrow through the optimization barrier.
pub fn run_reference_loop(input: &String, iterations: u64) {
    let mut k: u64 = 0;
    while k < iterations
        invariant
            k <= iterations,
        decreases iterations - k,
    {
        let t = f(input);
        observe(t);
        k = k + 1;
    }
}

} // verus!
