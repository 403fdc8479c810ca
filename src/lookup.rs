use vstd::prelude::*;

use crate::feedback::{make_combination, spec_feedback, Pattern, Word};

verus! {

/// Feedback patterns of every ordered pair of a dictionary, stored densely: the pattern for
/// secret `s` and guess `g` sits at `s * size + g`.
pub struct LookupTable {
    pub size: usize,
    pub entries: Vec<Pattern>,
}

impl LookupTable {
    /// The table is dense and square.
    pub open spec fn wf(&self) -> bool {
        &&& self.size * self.size <= usize::MAX
        &&& self.entries@.len() == self.size * self.size
    }

    /// The stored pattern for the pair `(secret, guess)`.
    pub open spec fn spec_get(&self, secret: int, guess: int) -> Pattern {
        self.entries@[secret * self.size + guess]
    }

    /// The table holds, for every ordered pair of `dict`, the pattern recomputed directly.
    pub open spec fn built_from(&self, dict: Seq<Word>) -> bool {
        &&& self.wf()
        &&& self.size == dict.len()
        &&& forall|s: int, g: int|
            0 <= s < self.size && 0 <= g < self.size ==> (#[trigger] self.spec_get(s, g))@
                == spec_feedback(dict[s]@, dict[g]@)
    }

    /// The pattern stored for secret index `secret` and guess index `guess`.
    pub fn lookup(&self, secret: usize, guess: usize) -> (r: Pattern)
        requires
            self.wf(),
            secret < self.size,
            guess < self.size,
        ensures
            r == self.spec_get(secret as int, guess as int),
    {
        proof {
            lemma_pair_index(secret as int, guess as int, self.size as int);
        }
        self.entries[secret * self.size + guess]
    }
}

/// A pair of indices below `n` addresses a slot below `n * n`, after every slot of earlier rows.
pub proof fn lemma_pair_index(s: int, g: int, n: int)
    requires
        0 <= s < n,
        0 <= g < n,
    ensures
        s * n <= s * n + g < (s + 1) * n <= n * n,
{
    assert((s + 1) * n <= n * n) by (nonlinear_arith)
        requires
            0 <= s < n,
    ;
    assert((s + 1) * n == s * n + n) by (nonlinear_arith);
}

/// Compares every ordered pair of `dict` once and keeps the results in a dense table.
pub fn make_lookup(dict: &Vec<Word>) -> (r: LookupTable)
    requires
        dict@.len() * dict@.len() <= usize::MAX,
    ensures
        r.built_from(dict@),
{
    let n = dict.len();
    let mut entries: Vec<Pattern> = Vec::new();
    let mut s: usize = 0;
    while s < n
        invariant
            n == dict@.len(),
            n * n <= usize::MAX,
            s <= n,
            entries@.len() == s * n,
            forall|s2: int, g2: int|
                0 <= s2 < s && 0 <= g2 < n ==> (#[trigger] entries@[s2 * n + g2])@
                    == spec_feedback(dict@[s2]@, dict@[g2]@),
        decreases n - s,
    {
        let mut g: usize = 0;
        while g < n
            invariant
                n == dict@.len(),
                n * n <= usize::MAX,
                s < n,
                g <= n,
                entries@.len() == s * n + g,
                forall|s2: int, g2: int|
                    0 <= s2 < s && 0 <= g2 < n ==> (#[trigger] entries@[s2 * n + g2])@
                        == spec_feedback(dict@[s2]@, dict@[g2]@),
                forall|g2: int|
                    0 <= g2 < g ==> (#[trigger] entries@[s * n + g2])@ == spec_feedback(
                        dict@[s as int]@,
                        dict@[g2]@,
                    ),
            decreases n - g,
        {
            proof {
                lemma_pair_index(s as int, g as int, n as int);
            }
            let p = make_combination(&dict[s], &dict[g]);
            let ghost before = entries@;
            entries.push(p);
            assert forall|s2: int, g2: int| 0 <= s2 < s && 0 <= g2 < n implies (
            #[trigger] entries@[s2 * n + g2])@ == spec_feedback(dict@[s2]@, dict@[g2]@) by {
                lemma_pair_index(s2, g2, n as int);
                assert((s2 + 1) * n <= s * n) by (nonlinear_arith)
                    requires
                        s2 < s,
                        n >= 0,
                ;
                assert(entries@[s2 * n + g2] == before[s2 * n + g2]);
            }
            g = g + 1;
        }
        proof {
            assert((s + 1) * n == s * n + n) by (nonlinear_arith);
        }
        assert forall|s2: int, g2: int| 0 <= s2 < s + 1 && 0 <= g2 < n implies (
        #[trigger] entries@[s2 * n + g2])@ == spec_feedback(dict@[s2]@, dict@[g2]@) by {
            if s2 == s {
                assert(entries@[s * n + g2]@ == spec_feedback(dict@[s as int]@, dict@[g2]@));
            }
        }
        s = s + 1;
    }
    LookupTable { size: n, entries }
}

/// Every entry of a table built from a dictionary equals the pattern computed directly from
/// the two words it stands for.
pub proof fn lemma_lookup_consistent(table: LookupTable, dict: Seq<Word>, s: int, g: int)
    requires
        table.built_from(dict),
        0 <= s < dict.len(),
        0 <= g < dict.len(),
    ensures
        table.spec_get(s, g)@ == spec_feedback(dict[s]@, dict[g]@),
{
}

} // verus!
