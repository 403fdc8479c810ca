use vstd::prelude::*;

use crate::error::SolverError;
use crate::feedback::{make_combination, spec_feedback, Mark, Pattern, Word};
use crate::lookup::LookupTable;
use crate::patterns::{code_of_pattern, lemma_code_injective, pattern_code, PATTERN_COUNT};

verus! {

/// How many of the first `n` secrets of `dict` give pattern `p` against `guess`.
pub open spec fn count_with_pattern(dict: Seq<Word>, guess: Seq<char>, p: Seq<Mark>, n: int) -> nat
    decreases n,
{
    if n <= 0 {
        0
    } else {
        count_with_pattern(dict, guess, p, n - 1) + if spec_feedback(dict[n - 1]@, guess) == p {
            1nat
        } else {
            0nat
        }
    }
}

/// How many of the first `n` secrets of `dict` give, against `guess`, the pattern with code `c`.
pub open spec fn count_with_code(dict: Seq<Word>, guess: Seq<char>, c: int, n: int) -> nat
    decreases n,
{
    if n <= 0 {
        0
    } else {
        count_with_code(dict, guess, c, n - 1) + if pattern_code(spec_feedback(dict[n - 1]@, guess))
            == c {
            1nat
        } else {
            0nat
        }
    }
}

/// A count over a prefix never exceeds the prefix length.
pub proof fn lemma_count_with_code_bound(dict: Seq<Word>, guess: Seq<char>, c: int, n: int)
    requires
        0 <= n,
    ensures
        count_with_code(dict, guess, c, n) <= n,
    decreases n,
{
    if n > 0 {
        lemma_count_with_code_bound(dict, guess, c, n - 1);
    }
}

/// A count over a prefix never exceeds the prefix length.
pub proof fn lemma_count_with_pattern_bound(dict: Seq<Word>, guess: Seq<char>, p: Seq<Mark>, n: int)
    requires
        0 <= n,
    ensures
        count_with_pattern(dict, guess, p, n) <= n,
    decreases n,
{
    if n > 0 {
        lemma_count_with_pattern_bound(dict, guess, p, n - 1);
    }
}

/// Number of secrets of `dict` that give `combination` against the guess at index `guess`,
/// read from the lookup table.
pub fn count_pattern(guess: usize, combination: &Pattern, dict: &Vec<Word>, table: &LookupTable) -> (r: usize)
    requires
        table.built_from(dict@),
        guess < dict@.len(),
    ensures
        r == count_with_pattern(dict@, dict@[guess as int]@, combination@, dict@.len() as int),
{
    let n = dict.len();
    let mut r: usize = 0;
    let mut s: usize = 0;
    while s < n
        invariant
            table.built_from(dict@),
            n == dict@.len(),
            guess < n,
            s <= n,
            r == count_with_pattern(dict@, dict@[guess as int]@, combination@, s as int),
        decreases n - s,
    {
        proof {
            lemma_count_with_pattern_bound(dict@, dict@[guess as int]@, combination@, s as int);
        }
        let p = table.lookup(s, guess);
        assert(p@ == spec_feedback(dict@[s as int]@, dict@[guess as int]@));
        if same_pattern(&p, combination) {
            r = r + 1;
        }
        s = s + 1;
    }
    r
}

fn same_pattern(a: &Pattern, b: &Pattern) -> (r: bool)
    ensures
        r == (a@ == b@),
{
    let mut i: usize = 0;
    while i < 5
        invariant
            i <= 5,
            forall|k: int| 0 <= k < i ==> a@[k] == b@[k],
        decreases 5 - i,
    {
        if a[i] != b[i] {
            assert(a@[i as int] != b@[i as int]);
            return false;
        }
        i = i + 1;
    }
    assert(a@ =~= b@);
    true
}

fn zero_counts() -> (r: Vec<usize>)
    ensures
        r@.len() == PATTERN_COUNT,
        forall|c: int| 0 <= c < PATTERN_COUNT ==> #[trigger] r@[c] == 0,
{
    let mut r: Vec<usize> = Vec::new();
    let mut c: usize = 0;
    while c < PATTERN_COUNT
        invariant
            c <= PATTERN_COUNT,
            r@.len() == c,
            forall|k: int| 0 <= k < c ==> #[trigger] r@[k] == 0,
        decreases PATTERN_COUNT - c,
    {
        r.push(0);
        c = c + 1;
    }
    r
}

/// How the secrets of `dict` spread over the patterns against the guess at index `guess`,
/// read from the lookup table: the entry at each pattern code counts the secrets giving it.
pub fn pattern_counts(guess: usize, dict: &Vec<Word>, table: &LookupTable) -> (r: Vec<usize>)
    requires
        table.built_from(dict@),
        guess < dict@.len(),
    ensures
        r@.len() == PATTERN_COUNT,
        forall|c: int|
            0 <= c < PATTERN_COUNT ==> #[trigger] r@[c] == count_with_code(
                dict@,
                dict@[guess as int]@,
                c,
                dict@.len() as int,
            ),
{
    let n = dict.len();
    let ghost g = dict@[guess as int]@;
    let mut r = zero_counts();
    let mut s: usize = 0;
    while s < n
        invariant
            table.built_from(dict@),
            n == dict@.len(),
            guess < n,
            g == dict@[guess as int]@,
            s <= n,
            r@.len() == PATTERN_COUNT,
            forall|c: int|
                0 <= c < PATTERN_COUNT ==> #[trigger] r@[c] == count_with_code(dict@, g, c, s as int),
        decreases n - s,
    {
        let p = table.lookup(s, guess);
        assert(p@ == spec_feedback(dict@[s as int]@, g));
        let c = code_of_pattern(&p) as usize;
        proof {
            lemma_count_with_code_bound(dict@, g, c as int, s as int);
        }
        let v = r[c] + 1;
        r.set(c, v);
        s = s + 1;
    }
    r
}

/// How the secrets of `dict` spread over the patterns against `guess`, compared directly:
/// the entry at each pattern code counts the secrets giving it. Scoring needs at least one
/// candidate word.
pub fn pattern_counts_direct(guess: &Word, dict: &Vec<Word>) -> (r: Result<Vec<usize>, SolverError>)
    ensures
        dict@.len() == 0 <==> r is Err,
        r is Err ==> r->Err_0 == SolverError::EmptyDictionary,
        r is Ok ==> r->Ok_0@.len() == PATTERN_COUNT,
        r is Ok ==> forall|c: int|
            0 <= c < PATTERN_COUNT ==> #[trigger] r->Ok_0@[c] == count_with_code(
                dict@,
                guess@,
                c,
                dict@.len() as int,
            ),
{
    let n = dict.len();
    if n == 0 {
        return Err(SolverError::EmptyDictionary);
    }
    let mut r = zero_counts();
    let mut s: usize = 0;
    while s < n
        invariant
            n == dict@.len(),
            s <= n,
            r@.len() == PATTERN_COUNT,
            forall|c: int|
                0 <= c < PATTERN_COUNT ==> #[trigger] r@[c] == count_with_code(dict@, guess@, c, s as int),
        decreases n - s,
    {
        let p = make_combination(&dict[s], guess);
        let c = code_of_pattern(&p) as usize;
        proof {
            lemma_count_with_code_bound(dict@, guess@, c as int, s as int);
        }
        let v = r[c] + 1;
        r.set(c, v);
        s = s + 1;
    }
    Ok(r)
}

/// Counting the secrets that give a pattern is the same as reading the count at its code.
pub proof fn lemma_pattern_count_is_code_count(dict: Seq<Word>, guess: Word, p: Pattern, n: int)
    requires
        0 <= n <= dict.len(),
    ensures
        count_with_pattern(dict, guess@, p@, n) == count_with_code(dict, guess@, pattern_code(p@), n),
    decreases n,
{
    if n > 0 {
        lemma_pattern_count_is_code_count(dict, guess, p, n - 1);
        let f = spec_feedback(dict[n - 1]@, guess@);
        if pattern_code(f) == pattern_code(p@) {
            lemma_code_injective(f, p@);
        }
    }
}

/// The count for code `c` covers the whole prefix exactly when every secret in it gives the
/// pattern with that code.
proof fn lemma_full_count(dict: Seq<Word>, guess: Seq<char>, c: int, n: int)
    requires
        0 <= n <= dict.len(),
    ensures
        count_with_code(dict, guess, c, n) == n <==> forall|i: int|
            0 <= i < n ==> pattern_code(#[trigger] spec_feedback(dict[i]@, guess)) == c,
    decreases n,
{
    if n > 0 {
        lemma_full_count(dict, guess, c, n - 1);
        lemma_count_with_code_bound(dict, guess, c, n - 1);
    }
}

/// Against a non-empty dictionary, a single pattern takes every secret (so the score is zero)
/// exactly when all secrets give the same pattern against the guess.
pub proof fn lemma_single_pattern_iff_uniform(dict: Seq<Word>, guess: Word)
    requires
        dict.len() > 0,
    ensures
        (exists|c: int| count_with_code(dict, guess@, c, dict.len() as int) == dict.len()) <==> (
        forall|i: int, j: int|
            0 <= i < dict.len() && 0 <= j < dict.len() ==> #[trigger] spec_feedback(dict[i]@, guess@)
                == #[trigger] spec_feedback(dict[j]@, guess@)),
{
    let n = dict.len() as int;
    if exists|c: int| count_with_code(dict, guess@, c, n) == n {
        let c = choose|c: int| count_with_code(dict, guess@, c, n) == n;
        lemma_full_count(dict, guess@, c, n);
        assert forall|i: int, j: int| 0 <= i < n && 0 <= j < n implies #[trigger] spec_feedback(
            dict[i]@,
            guess@,
        ) == #[trigger] spec_feedback(dict[j]@, guess@) by {
            lemma_code_injective(spec_feedback(dict[i]@, guess@), spec_feedback(dict[j]@, guess@));
        }
    }
    if forall|i: int, j: int|
        0 <= i < n && 0 <= j < n ==> #[trigger] spec_feedback(dict[i]@, guess@)
            == #[trigger] spec_feedback(dict[j]@, guess@) {
        let c = pattern_code(spec_feedback(dict[0]@, guess@));
        assert forall|i: int| 0 <= i < n implies pattern_code(
            #[trigger] spec_feedback(dict[i]@, guess@),
        ) == c by {
            assert(spec_feedback(dict[i]@, guess@) == spec_feedback(dict[0]@, guess@));
        }
        lemma_full_count(dict, guess@, c, n);
    }
}

/// Sum of the counts for the codes below `m`.
pub open spec fn sum_counts(dict: Seq<Word>, guess: Seq<char>, m: int, n: int) -> nat
    decreases m,
{
    if m <= 0 {
        0
    } else {
        sum_counts(dict, guess, m - 1, n) + count_with_code(dict, guess, m - 1, n)
    }
}

proof fn lemma_sum_counts_step(dict: Seq<Word>, guess: Seq<char>, m: int, n: int)
    requires
        0 <= m,
        0 < n,
    ensures
        sum_counts(dict, guess, m, n) == sum_counts(dict, guess, m, n - 1) + if pattern_code(
            spec_feedback(dict[n - 1]@, guess),
        ) < m && 0 <= pattern_code(spec_feedback(dict[n - 1]@, guess)) {
            1nat
        } else {
            0nat
        },
    decreases m,
{
    if m > 0 {
        lemma_sum_counts_step(dict, guess, m - 1, n);
    }
}

/// Against any dictionary, the counts over all patterns add up to the number of secrets: every
/// secret gives exactly one pattern.
pub proof fn lemma_counts_total(dict: Seq<Word>, guess: Word, n: int)
    requires
        0 <= n <= dict.len(),
    ensures
        sum_counts(dict, guess@, PATTERN_COUNT as int, n) == n,
    decreases n,
{
    if n > 0 {
        lemma_counts_total(dict, guess, n - 1);
        lemma_sum_counts_step(dict, guess@, PATTERN_COUNT as int, n);
    } else {
        lemma_sum_zero(dict, guess@, PATTERN_COUNT as int);
    }
}

proof fn lemma_sum_zero(dict: Seq<Word>, guess: Seq<char>, m: int)
    requires
        0 <= m,
    ensures
        sum_counts(dict, guess, m, 0) == 0,
    decreases m,
{
    if m > 0 {
        lemma_sum_zero(dict, guess, m - 1);
    }
}

} // verus!
