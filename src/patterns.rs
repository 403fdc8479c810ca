use vstd::prelude::*;

use crate::feedback::{Mark, Pattern};

verus! {

/// Number of distinct feedback patterns: three marks at each of five positions.
pub const PATTERN_COUNT: usize = 243;

/// Value of a mark as a base-three digit, in the order absent, present, correct.
pub open spec fn digit_of(m: Mark) -> int {
    match m {
        Mark::Absent => 0,
        Mark::Present => 1,
        Mark::Correct => 2,
    }
}

/// A pattern read as a five-digit base-three number, the first position most significant.
pub open spec fn pattern_code(p: Seq<Mark>) -> int {
    81 * digit_of(p[0]) + 27 * digit_of(p[1]) + 9 * digit_of(p[2]) + 3 * digit_of(p[3]) + digit_of(
        p[4],
    )
}

/// Two five-mark sequences with the same code are the same sequence.
pub proof fn lemma_code_injective(p: Seq<Mark>, q: Seq<Mark>)
    requires
        p.len() == 5,
        q.len() == 5,
        pattern_code(p) == pattern_code(q),
    ensures
        p == q,
{
    assert(p =~= q);
}

/// Every pattern has a code in `0..243`.
pub proof fn lemma_code_bounds(p: Pattern)
    ensures
        0 <= pattern_code(p@) < PATTERN_COUNT,
{
}

fn mark_of_digit(d: u8) -> (r: Mark)
    requires
        d < 3,
    ensures
        digit_of(r) == d,
{
    if d == 0 {
        Mark::Absent
    } else if d == 1 {
        Mark::Present
    } else {
        Mark::Correct
    }
}

/// The pattern whose base-three code is `c`.
pub fn pattern_of_code(c: u8) -> (r: Pattern)
    requires
        c < PATTERN_COUNT,
    ensures
        pattern_code(r@) == c,
{
    let r = [
        mark_of_digit(c / 81),
        mark_of_digit((c / 27) % 3),
        mark_of_digit((c / 9) % 3),
        mark_of_digit((c / 3) % 3),
        mark_of_digit(c % 3),
    ];
    assert(81 * (c / 81) + 27 * ((c / 27) % 3) + 9 * ((c / 9) % 3) + 3 * ((c / 3) % 3) + c % 3
        == c);
    r
}

fn digit_value(m: Mark) -> (r: u8)
    ensures
        r == digit_of(m),
{
    match m {
        Mark::Absent => 0,
        Mark::Present => 1,
        Mark::Correct => 2,
    }
}

/// The base-three code of a pattern.
pub fn code_of_pattern(p: &Pattern) -> (r: u8)
    ensures
        r == pattern_code(p@),
        r < PATTERN_COUNT,
{
    81 * digit_value(p[0]) + 27 * digit_value(p[1]) + 9 * digit_value(p[2]) + 3 * digit_value(p[3])
        + digit_value(p[4])
}

/// Every feedback pattern once, in increasing order of code, so that the pattern at index `i`
/// is the one whose code is `i`.
pub fn generate_combinations() -> (r: Vec<Pattern>)
    ensures
        r@.len() == PATTERN_COUNT,
        forall|i: int| 0 <= i < r@.len() ==> pattern_code(#[trigger] r@[i]@) == i,
{
    let mut r: Vec<Pattern> = Vec::new();
    let mut c: u8 = 0;
    while c < 243
        invariant
            c <= PATTERN_COUNT,
            r@.len() == c,
            forall|i: int| 0 <= i < r@.len() ==> pattern_code(#[trigger] r@[i]@) == i,
        decreases 243 - c,
    {
        r.push(pattern_of_code(c));
        c = c + 1;
    }
    r
}

/// The pattern space holds no pattern twice.
pub proof fn lemma_patterns_distinct(space: Seq<Pattern>)
    requires
        forall|i: int| 0 <= i < space.len() ==> pattern_code(#[trigger] space[i]@) == i,
    ensures
        forall|i: int, j: int| 0 <= i < j < space.len() ==> #[trigger] space[i] != #[trigger] space[j],
{
    assert forall|i: int, j: int| 0 <= i < j < space.len() implies #[trigger] space[i]
        != #[trigger] space[j] by {
        assert(pattern_code(space[i]@) != pattern_code(space[j]@));
    }
}

/// The pattern space holds every pattern, each a sequence of five marks.
pub proof fn lemma_patterns_complete(space: Seq<Pattern>)
    requires
        space.len() == PATTERN_COUNT,
        forall|i: int| 0 <= i < space.len() ==> pattern_code(#[trigger] space[i]@) == i,
    ensures
        forall|p: Pattern| #[trigger] space.contains(p),
{
    assert forall|p: Pattern| #[trigger] space.contains(p) by {
        let i = pattern_code(p@);
        lemma_code_bounds(p);
        lemma_code_injective(space[i]@, p@);
        assert(space[i] == p);
    }
}

} // verus!
