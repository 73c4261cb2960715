//! The allocation-timing harness: builds one fresh string per iteration from
//! a prefix and the iteration index.
use vstd::prelude::*;
use crate::barrier::observe;
use crate::decimal::{push_signed_decimal, signed_decimal, lemma_signed_decimal_injective};

verus! {

/// Number of iterations of the allocation harness.
pub const ALLOCATION_ITERATIONS: i32 = 1000000;

/// The prefix of every value that `make_obj` builds.
pub open spec fn object_prefix() -> Seq<char> {
    seq!['p', 'r', 'e', 'f', 'i', 'x', '_']
}

/// The value built for index `i` from `prefix`.
pub open spec fn value_text(prefix: Seq<char>, i: int) -> Seq<char> {
    prefix + signed_decimal(i)
}

/// A fresh string: `prefix` followed by the decimal text of `i`.
pub fn make_value(prefix: &str, i: i32) -> (r: String)
    ensures
        r@ == value_text(prefix@, i as int),
{
    let mut r = String::from_str(prefix);
    push_signed_decimal(&mut r, i as i64);
    r
}

/// A fresh string: `prefix_` followed by the decimal text of `i`.
pub fn make_obj(i: i32) -> (r: String)
    ensures
        r@ == value_text(object_prefix(), i as int),
{
    let prefix = "prefix_";
    proof {
        reveal_strlit("prefix_");
        assert(prefix@ =~= object_prefix());
    }
    make_value(prefix, i)
}

/// The timed loop: builds `make_obj(i)` for each `i` from zero up to
/// `iterations`, and passes each through the optimization barrier.
pub fn run_allocation_loop(iterations: i32) {
    let mut i: i32 = 0;
    while i < iterations
        invariant
            0 <= i,
        decreases iterations - i,
    {
        let t = make_obj(i);
        observe(t);
        i = i + 1;
    }
}

/// The values that the loop builds from `prefix` over `count` iterations, in
/// the order it builds them, kept rather than dropped.
pub fn allocation_values(prefix: &str, count: i32) -> (r: Vec<String>)
    ensures
        r@.len() == if count < 0 { 0 } else { count as int },
        forall|k: int| 0 <= k < r@.len() ==> (#[trigger] r@[k])@ == value_text(prefix@, k),
{
    let mut r: Vec<String> = Vec::new();
    let mut i: i32 = 0;
    while i < count
        invariant
            0 <= i,
            count >= 0 ==> i <= count,
            count < 0 ==> i == 0,
            r@.len() == i as int,
            forall|k: int| 0 <= k < r@.len() ==> (#[trigger] r@[k])@ == value_text(prefix@, k),
        decreases count - i,
    {
        let t = make_value(prefix, i);
        r.push(observe(t));
        i = i + 1;
    }
    r
}

/// The loop builds a different value at every index: for one prefix, two
/// different indices give two different strings.
pub proof fn lemma_values_distinct(prefix: Seq<char>, i: int, j: int)
    requires
        i != j,
    ensures
        value_text(prefix, i) != value_text(prefix, j),
{
    lemma_signed_decimal_injective(i, j);
    if value_text(prefix, i) == value_text(prefix, j) {
        assert(signed_decimal(i) =~= value_text(prefix, i).subrange(
            prefix.len() as int,
            value_text(prefix, i).len() as int,
        ));
        assert(signed_decimal(j) =~= value_text(prefix, j).subrange(
            prefix.len() as int,
            value_text(prefix, j).len() as int,
        ));
    }
}

} // verus!
