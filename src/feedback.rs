use vstd::prelude::*;

use crate::error::SolverError;

verus! {

/// One symbol of a feedback pattern.
#[derive(Clone, Copy, Debug, PartialEq, Eq, Structural)]
pub enum Mark {
    Absent,
    Present,
    Correct,
}

/// The numeric form of a mark used when a table is stored: 1 absent, 2 present, 3 correct.
pub open spec fn spec_mark_code(m: Mark) -> i8 {
    match m {
        Mark::Absent => 1,
        Mark::Present => 2,
        Mark::Correct => 3,
    }
}

impl Mark {
    /// The numeric form of this mark: 1 absent, 2 present, 3 correct.
    pub fn code(&self) -> (r: i8)
        ensures
            r == spec_mark_code(*self),
    {
        match self {
            Mark::Absent => 1,
            Mark::Present => 2,
            Mark::Correct => 3,
        }
    }
}

/// A word of the game: exactly five letters.
pub type Word = [char; 5];

/// What a player sees after a guess: one mark per letter position.
pub type Pattern = [Mark; 5];

/// Number of positions `k < n` where the secret holds `c` and is not matched in place.
pub open spec fn spare_in_secret(s: Seq<char>, g: Seq<char>, c: char, n: int) -> nat
    decreases n,
{
    if n <= 0 {
        0
    } else {
        spare_in_secret(s, g, c, n - 1) + if s[n - 1] == c && s[n - 1] != g[n - 1] {
            1nat
        } else {
            0nat
        }
    }
}

/// Number of positions `k < n` where the guess holds `c` and is not matched in place.
pub open spec fn spare_in_guess(s: Seq<char>, g: Seq<char>, c: char, n: int) -> nat
    decreases n,
{
    if n <= 0 {
        0
    } else {
        spare_in_guess(s, g, c, n - 1) + if g[n - 1] == c && s[n - 1] != g[n - 1] {
            1nat
        } else {
            0nat
        }
    }
}

/// The mark at position `i` when `g` is guessed against the secret `s`: correct where the
/// letters agree; otherwise present while earlier unmatched copies of the letter in the guess
/// have not used up the unmatched copies in the secret, scanning left to right.
pub open spec fn spec_mark(s: Seq<char>, g: Seq<char>, i: int) -> Mark {
    if s[i] == g[i] {
        Mark::Correct
    } else if spare_in_guess(s, g, g[i], i) < spare_in_secret(s, g, g[i], s.len() as int) {
        Mark::Present
    } else {
        Mark::Absent
    }
}

/// The feedback pattern of guess `g` against secret `s`, as a sequence of marks.
pub open spec fn spec_feedback(s: Seq<char>, g: Seq<char>) -> Seq<Mark> {
    Seq::new(s.len(), |i: int| spec_mark(s, g, i))
}

fn count_spare_in_secret(s: &Word, g: &Word, c: char) -> (r: u8)
    ensures
        r as nat == spare_in_secret(s@, g@, c, 5),
{
    let mut r: u8 = 0;
    let mut k: usize = 0;
    while k < 5
        invariant
            k <= 5,
            r as nat == spare_in_secret(s@, g@, c, k as int),
            r <= k,
        decreases 5 - k,
    {
        if s[k] == c && s[k] != g[k] {
            r = r + 1;
        }
        k = k + 1;
    }
    r
}

fn count_spare_in_guess(s: &Word, g: &Word, c: char, n: usize) -> (r: u8)
    requires
        n <= 5,
    ensures
        r as nat == spare_in_guess(s@, g@, c, n as int),
{
    let mut r: u8 = 0;
    let mut k: usize = 0;
    while k < n
        invariant
            k <= n <= 5,
            r as nat == spare_in_guess(s@, g@, c, k as int),
            r <= k,
        decreases n - k,
    {
        if g[k] == c && s[k] != g[k] {
            r = r + 1;
        }
        k = k + 1;
    }
    r
}

fn mark_at(word: &Word, guess: &Word, i: usize) -> (r: Mark)
    requires
        i < 5,
    ensures
        r == spec_mark(word@, guess@, i as int),
{
    if word[i] == guess[i] {
        Mark::Correct
    } else if count_spare_in_guess(word, guess, guess[i], i) < count_spare_in_secret(
        word,
        guess,
        guess[i],
    ) {
        Mark::Present
    } else {
        Mark::Absent
    }
}

/// The feedback pattern that a player sees on guessing `guess` when the secret is `word`.
pub fn make_combination(word: &Word, guess: &Word) -> (r: Pattern)
    ensures
        r@ == spec_feedback(word@, guess@),
{
    let r = [
        mark_at(word, guess, 0),
        mark_at(word, guess, 1),
        mark_at(word, guess, 2),
        mark_at(word, guess, 3),
        mark_at(word, guess, 4),
    ];
    assert(r@ =~= spec_feedback(word@, guess@));
    r
}

/// Number of positions `k < n` where `s` holds `c`.
pub open spec fn count_char(s: Seq<char>, c: char, n: int) -> nat
    decreases n,
{
    if n <= 0 {
        0
    } else {
        count_char(s, c, n - 1) + if s[n - 1] == c {
            1nat
        } else {
            0nat
        }
    }
}

/// Number of positions `i < n` where the guess holds `c` and the mark is not absent.
pub open spec fn marked_count(s: Seq<char>, g: Seq<char>, c: char, n: int) -> nat
    decreases n,
{
    if n <= 0 {
        0
    } else {
        marked_count(s, g, c, n - 1) + if g[n - 1] == c && spec_mark(s, g, n - 1) != Mark::Absent {
            1nat
        } else {
            0nat
        }
    }
}

/// Number of positions `i < n` where both words hold `c`.
pub open spec fn matched_count(s: Seq<char>, g: Seq<char>, c: char, n: int) -> nat
    decreases n,
{
    if n <= 0 {
        0
    } else {
        matched_count(s, g, c, n - 1) + if g[n - 1] == c && s[n - 1] == g[n - 1] {
            1nat
        } else {
            0nat
        }
    }
}

proof fn lemma_secret_split(s: Seq<char>, g: Seq<char>, c: char, n: int)
    requires
        0 <= n <= s.len(),
        s.len() == g.len(),
    ensures
        count_char(s, c, n) == matched_count(s, g, c, n) + spare_in_secret(s, g, c, n),
    decreases n,
{
    if n > 0 {
        lemma_secret_split(s, g, c, n - 1);
    }
}

proof fn lemma_marked_split(s: Seq<char>, g: Seq<char>, c: char, n: int)
    requires
        0 <= n <= s.len(),
        s.len() == g.len(),
    ensures
        marked_count(s, g, c, n) == matched_count(s, g, c, n) + if spare_in_guess(s, g, c, n)
            < spare_in_secret(s, g, c, s.len() as int) {
            spare_in_guess(s, g, c, n)
        } else {
            spare_in_secret(s, g, c, s.len() as int)
        },
    decreases n,
{
    if n > 0 {
        lemma_marked_split(s, g, c, n - 1);
    }
}

/// A letter is marked present or correct in the guess at most as often as it occurs in the
/// secret: repeated letters of the guess are never counted twice.
pub proof fn lemma_no_overcount(secret: Word, guess: Word, c: char)
    ensures
        marked_count(secret@, guess@, c, 5) <= count_char(secret@, c, 5),
{
    lemma_secret_split(secret@, guess@, c, 5);
    lemma_marked_split(secret@, guess@, c, 5);
}

/// Whether `combination` is the pattern that a player sees on guessing `test_word` when the
/// secret is `word`.
pub fn check_combination_match(word: &Word, test_word: &Word, combination: &Pattern) -> (r: bool)
    ensures
        r == (spec_feedback(word@, test_word@) == combination@),
{
    let p = make_combination(word, test_word);
    let mut i: usize = 0;
    while i < 5
        invariant
            i <= 5,
            p@ == spec_feedback(word@, test_word@),
            forall|k: int| 0 <= k < i ==> p@[k] == combination@[k],
        decreases 5 - i,
    {
        if p[i] != combination[i] {
            assert(p@[i as int] != combination@[i as int]);
            return false;
        }
        i = i + 1;
    }
    assert(p@ =~= combination@);
    true
}

/// A guess compared with itself is correct at every position.
pub proof fn lemma_feedback_self(w: Word)
    ensures
        forall|i: int| 0 <= i < 5 ==> #[trigger] spec_feedback(w@, w@)[i] == Mark::Correct,
        spec_feedback(w@, w@).len() == 5,
{
}

/// Reads a word from its letters; anything but exactly five letters is refused.
pub fn word_from_chars(chars: &Vec<char>) -> (r: Result<Word, SolverError>)
    ensures
        chars@.len() == 5 <==> r is Ok,
        r is Ok ==> r->Ok_0@ == chars@,
        r is Err ==> r->Err_0 == SolverError::InvalidWordLength,
{
    if chars.len() != 5 {
        return Err(SolverError::InvalidWordLength);
    }
    let w: Word = [chars[0], chars[1], chars[2], chars[3], chars[4]];
    assert(w@ =~= chars@);
    Ok(w)
}

} // verus!
