use wordle_solver::error::SolverError;
use wordle_solver::feedback::{
    check_combination_match, make_combination, word_from_chars, Mark, Pattern, Word,
};
use wordle_solver::lookup::make_lookup;
use wordle_solver::patterns::{code_of_pattern, generate_combinations, pattern_of_code};
use wordle_solver::scoring::{count_pattern, pattern_counts, pattern_counts_direct};

use Mark::{Absent as A, Correct as C, Present as P};

fn w(s: &str) -> Word {
    let chars: Vec<char> = s.chars().collect();
    word_from_chars(&chars).unwrap()
}

fn entropy_of(counts: &[usize]) -> f64 {
    let n: usize = counts.iter().sum();
    let mut sum = 0.0;
    for &c in counts {
        if c != 0 {
            let p = c as f64 / n as f64;
            sum += p * (1.0 / p).log2();
        }
    }
    sum
}

#[test]
fn pattern_space_has_every_pattern_once() {
    let space = generate_combinations();
    assert_eq!(space.len(), 243);
    for i in 0..space.len() {
        for j in (i + 1)..space.len() {
            assert_ne!(space[i], space[j]);
        }
    }
    assert_eq!(space[0], [A, A, A, A, A]);
    assert_eq!(space[1], [A, A, A, A, P]);
    assert_eq!(space[242], [C, C, C, C, C]);
    for (i, p) in space.iter().enumerate() {
        assert_eq!(code_of_pattern(p) as usize, i);
    }
}

#[test]
fn pattern_code_round_trip() {
    assert_eq!(pattern_of_code(0), [A, A, A, A, A]);
    assert_eq!(pattern_of_code(5), [A, A, A, P, C]);
    assert_eq!(code_of_pattern(&[C, A, P, A, A]), 81 * 2 + 9);
    for c in 0..243u8 {
        assert_eq!(code_of_pattern(&pattern_of_code(c)), c);
    }
}

#[test]
fn word_compared_with_itself_is_all_correct() {
    for s in ["ABIDE", "SPEED", "LLAMA", "AAAAA", "XYZZY"] {
        assert_eq!(make_combination(&w(s), &w(s)), [C, C, C, C, C]);
    }
}

#[test]
fn repeated_letters_speed_erase() {
    let p = make_combination(&w("SPEED"), &w("ERASE"));
    assert_eq!(p, [P, A, A, P, P]);
}

#[test]
fn repeated_letters_alloy_llama() {
    let p = make_combination(&w("ALLOY"), &w("LLAMA"));
    assert_eq!(p, [P, C, P, A, A]);
}

#[test]
fn letter_used_by_a_later_correct_match_is_absent() {
    let p = make_combination(&w("ABCDE"), &w("EEEEE"));
    assert_eq!(p, [A, A, A, A, C]);
}

#[test]
fn extra_copies_beyond_the_secret_are_absent() {
    let p = make_combination(&w("ABBEY"), &w("BBBBB"));
    assert_eq!(p, [A, C, C, A, A]);
    let p = make_combination(&w("CRANE"), &w("NANNY"));
    assert_eq!(p, [A, P, A, C, A]);
}

#[test]
fn check_combination_match_agrees_with_feedback() {
    let secret = w("ALLOY");
    let guess = w("LLAMA");
    assert!(check_combination_match(&secret, &guess, &[P, C, P, A, A]));
    assert!(!check_combination_match(&secret, &guess, &[P, C, P, A, P]));
    assert!(!check_combination_match(&secret, &guess, &[C, C, C, C, C]));
}

#[test]
fn word_of_wrong_length_is_refused() {
    let short: Vec<char> = "ABC".chars().collect();
    assert_eq!(word_from_chars(&short), Err(SolverError::InvalidWordLength));
    let long: Vec<char> = "ABCDEF".chars().collect();
    assert_eq!(word_from_chars(&long), Err(SolverError::InvalidWordLength));
    let ok: Vec<char> = "ABIDE".chars().collect();
    assert_eq!(word_from_chars(&ok), Ok(['A', 'B', 'I', 'D', 'E']));
}

#[test]
fn lookup_table_matches_direct_comparison() {
    let dict: Vec<Word> = ["ABIDE", "ABODE", "SPEED", "ERASE", "ALLOY", "LLAMA"]
        .iter()
        .map(|s| w(s))
        .collect();
    let table = make_lookup(&dict);
    assert_eq!(table.size, dict.len());
    assert_eq!(table.entries.len(), dict.len() * dict.len());
    for s in 0..dict.len() {
        for g in 0..dict.len() {
            assert_eq!(table.lookup(s, g), make_combination(&dict[s], &dict[g]));
        }
    }
    assert_eq!(table.lookup(4, 5), [P, C, P, A, A]);
}

#[test]
fn count_pattern_counts_matching_secrets() {
    let dict: Vec<Word> = ["ABIDE", "ABODE", "ANODE", "XYLYL"].iter().map(|s| w(s)).collect();
    let table = make_lookup(&dict);
    assert_eq!(count_pattern(0, &[C, C, C, C, C], &dict, &table), 1);
    assert_eq!(count_pattern(0, &[C, C, A, C, C], &dict, &table), 1);
    assert_eq!(count_pattern(0, &[C, A, A, C, C], &dict, &table), 1);
    assert_eq!(count_pattern(0, &[A, A, A, A, A], &dict, &table), 1);
    assert_eq!(count_pattern(0, &[P, P, P, P, P], &dict, &table), 0);
}

#[test]
fn empty_dictionary_cannot_be_scored() {
    let dict: Vec<Word> = Vec::new();
    assert_eq!(pattern_counts_direct(&w("ABIDE"), &dict), Err(SolverError::EmptyDictionary));
}

#[test]
fn single_word_dictionary_scores_zero() {
    let dict: Vec<Word> = vec![w("ABIDE")];
    let table = make_lookup(&dict);
    let counts = pattern_counts(0, &dict, &table);
    assert_eq!(counts.len(), 243);
    assert_eq!(counts[242], 1);
    assert_eq!(counts.iter().filter(|&&c| c != 0).count(), 1);
    assert_eq!(entropy_of(&counts), 0.0);
}

#[test]
fn two_words_one_letter_apart_score_one_bit() {
    let dict: Vec<Word> = vec![w("ABIDE"), w("ABODE")];
    let table = make_lookup(&dict);
    for g in 0..2 {
        let counts = pattern_counts(g, &dict, &table);
        assert_eq!(counts.iter().filter(|&&c| c == 1).count(), 2);
        assert_eq!(counts.iter().sum::<usize>(), 2);
        assert_eq!(entropy_of(&counts), 1.0);
        let direct = pattern_counts_direct(&dict[g], &dict).unwrap();
        assert_eq!(direct, counts);
    }
}

#[test]
fn same_pattern_for_every_secret_scores_zero() {
    let dict: Vec<Word> = vec![w("ABCDE"), w("FGHIJ"), w("KLMNO")];
    let counts = pattern_counts_direct(&w("ZZZZZ"), &dict).unwrap();
    assert_eq!(counts[0], 3);
    assert_eq!(entropy_of(&counts), 0.0);
}

#[test]
fn scores_are_bounded_and_repeatable() {
    let dict: Vec<Word> = ["ABIDE", "ABODE", "SPEED", "ERASE", "ALLOY", "LLAMA", "CRANE", "NANNY"]
        .iter()
        .map(|s| w(s))
        .collect();
    let table = make_lookup(&dict);
    for g in 0..dict.len() {
        let first = pattern_counts(g, &dict, &table);
        let second = pattern_counts(g, &dict, &table);
        assert_eq!(first, second);
        assert_eq!(first.iter().sum::<usize>(), dict.len());
        let e1 = entropy_of(&first);
        let e2 = entropy_of(&second);
        assert_eq!(e1.to_bits(), e2.to_bits());
        assert!(e1 >= 0.0);
        assert!(e1 <= (243.0f64).log2());
    }
}

#[test]
fn mark_codes_follow_stored_form() {
    assert_eq!(A.code(), 1);
    assert_eq!(P.code(), 2);
    assert_eq!(C.code(), 3);
    let p: Pattern = [A, P, C, A, P];
    let codes: Vec<i8> = p.iter().map(|m| m.code()).collect();
    assert_eq!(codes, vec![1, 2, 3, 1, 2]);
}
