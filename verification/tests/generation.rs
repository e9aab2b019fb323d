use rng_rename::char_set::{CharSet, CustomCharSet};
use rng_rename::cli::NameGenerationStrategy;
use rng_rename::compute::{
    first_unused_name, generate_on_demand, generate_random_names, generate_then_match,
    select_strategy, NameGenerationError, FILE_COUNT_MAX, PERMUTATION_COUNT_MAX,
};
use rng_rename::naming::{name_at, space_up_to};
use std::collections::HashSet;

fn file_list(count: usize) -> Vec<String> {
    (0..count).map(|i| format!("/tmp/file-{i}")).collect()
}

fn custom(symbols: &str) -> CharSet {
    CharSet::Custom(CustomCharSet::parse(symbols).unwrap())
}

fn assert_assignment(
    pairs: &[(&String, String)],
    files: &[String],
    alphabet: &[char],
    length: usize,
) {
    assert_eq!(pairs.len(), files.len());
    let mut seen = HashSet::new();
    for (k, (file, name)) in pairs.iter().enumerate() {
        assert_eq!(*file, &files[k]);
        assert_eq!(name.chars().count(), length);
        assert!(name.chars().all(|c| alphabet.contains(&c)));
        assert!(seen.insert(name.clone()), "name {name} was given twice");
    }
}

#[test]
fn five_files_over_digits_take_the_enumerating_strategy() {
    assert_eq!(select_strategy(5, 10, 1, None), NameGenerationStrategy::Match);
    let files = file_list(5);
    let pairs = generate_random_names(&files, CharSet::Numbers, 1, None).unwrap();
    assert_assignment(&pairs, &files, CharSet::Numbers.get_char_set(), 1);
}

#[test]
fn eleven_files_over_digits_are_refused() {
    let files = file_list(11);
    let refused = generate_random_names(&files, CharSet::Numbers, 1, None).unwrap_err();
    assert_eq!(refused, NameGenerationError::InsufficientNamingSpace { needs: 11, space: 10 });
}

#[test]
fn three_files_over_hex_are_named_on_demand() {
    assert_eq!(select_strategy(3, 16, 8, None), NameGenerationStrategy::OnDemand);
    let files = file_list(3);
    let pairs = generate_random_names(&files, CharSet::Base16Lower, 8, None).unwrap();
    assert_assignment(&pairs, &files, CharSet::Base16Lower.get_char_set(), 8);
}

#[test]
fn a_huge_space_is_fine_on_demand_and_refused_when_enumeration_is_forced() {
    let binary = custom("01");
    assert_eq!(select_strategy(100, 2, 40, None), NameGenerationStrategy::OnDemand);
    let files = file_list(100);
    let pairs = generate_random_names(&files, binary.clone(), 40, None).unwrap();
    assert_assignment(&pairs, &files, &['0', '1'], 40);
    let refused =
        generate_random_names(&files, binary.clone(), 40, Some(NameGenerationStrategy::Match))
            .unwrap_err();
    assert_eq!(refused, NameGenerationError::TooManyPermutations { char_set: binary, length: 40 });
}

#[test]
fn a_space_beyond_the_machine_word_is_no_obstacle_on_demand() {
    let files = file_list(4);
    let pairs = generate_random_names(&files, CharSet::Base64, 100, None).unwrap();
    assert_assignment(&pairs, &files, CharSet::Base64.get_char_set(), 100);
    let refused =
        generate_random_names(&files, CharSet::Base64, 100, Some(NameGenerationStrategy::Match))
            .unwrap_err();
    assert_eq!(
        refused,
        NameGenerationError::TooManyPermutations { char_set: CharSet::Base64, length: 100 }
    );
}

#[test]
fn both_strategies_give_valid_assignments_for_the_same_request() {
    let files = file_list(40);
    let alphabet = CharSet::LettersLower;
    let on_demand =
        generate_random_names(&files, alphabet.clone(), 2, Some(NameGenerationStrategy::OnDemand))
            .unwrap();
    assert_assignment(&on_demand, &files, alphabet.get_char_set(), 2);
    let matched =
        generate_random_names(&files, alphabet.clone(), 2, Some(NameGenerationStrategy::Match))
            .unwrap();
    assert_assignment(&matched, &files, alphabet.get_char_set(), 2);
    let direct = generate_on_demand(&files, alphabet.clone(), 2).unwrap();
    assert_assignment(&direct, &files, alphabet.get_char_set(), 2);
    let direct = generate_then_match(&files, alphabet.clone(), 2).unwrap();
    assert_assignment(&direct, &files, alphabet.get_char_set(), 2);
}

#[test]
fn a_full_space_is_used_up_by_either_strategy() {
    let files = file_list(10);
    let every_digit: HashSet<String> = (0..10).map(|d| d.to_string()).collect();
    for strategy in [NameGenerationStrategy::OnDemand, NameGenerationStrategy::Match] {
        let pairs = generate_random_names(&files, CharSet::Numbers, 1, Some(strategy)).unwrap();
        assert_assignment(&pairs, &files, CharSet::Numbers.get_char_set(), 1);
        let names: HashSet<String> = pairs.iter().map(|(_, name)| name.clone()).collect();
        assert_eq!(names, every_digit);
    }
}

#[test]
fn enumeration_hands_out_every_name_of_two_symbols() {
    let files = file_list(9);
    let pairs = generate_then_match(&files, custom("abc"), 2).unwrap();
    let mut names: Vec<String> = pairs.iter().map(|(_, name)| name.clone()).collect();
    names.sort();
    assert_eq!(names, vec!["aa", "ab", "ac", "ba", "bb", "bc", "ca", "cb", "cc"]);
}

#[test]
fn no_files_get_no_names() {
    let files: Vec<String> = Vec::new();
    assert!(generate_random_names(&files, CharSet::Numbers, 3, None).unwrap().is_empty());
    assert!(generate_random_names(&files, custom("x"), 3, None).unwrap().is_empty());
    assert!(generate_on_demand(&files, CharSet::Numbers, 0).unwrap().is_empty());
    assert!(generate_then_match(&files, CharSet::Numbers, 0).unwrap().is_empty());
}

#[test]
fn names_of_no_symbols_suffice_for_one_file_only() {
    let one = file_list(1);
    for forced in [None, Some(NameGenerationStrategy::OnDemand), Some(NameGenerationStrategy::Match)]
    {
        let pairs = generate_random_names(&one, CharSet::Numbers, 0, forced).unwrap();
        assert_eq!(pairs.len(), 1);
        assert_eq!(pairs[0].1, "");
    }
    let two = file_list(2);
    let refused = generate_random_names(&two, CharSet::Numbers, 0, None).unwrap_err();
    assert_eq!(refused, NameGenerationError::InsufficientNamingSpace { needs: 2, space: 1 });
}

#[test]
fn an_alphabet_of_one_symbol_names_one_file() {
    let one = file_list(1);
    for forced in [None, Some(NameGenerationStrategy::OnDemand), Some(NameGenerationStrategy::Match)]
    {
        let pairs = generate_random_names(&one, custom("x"), 4, forced).unwrap();
        assert_eq!(pairs[0].1, "xxxx");
    }
    let two = file_list(2);
    let refused = generate_random_names(&two, custom("x"), 4, None).unwrap_err();
    assert_eq!(refused, NameGenerationError::InsufficientNamingSpace { needs: 2, space: 1 });
}

#[test]
fn a_refusal_turns_into_its_text() {
    let text: String = NameGenerationError::TooManyFiles { count: 2000000 }.into();
    assert_eq!(text, "Cannot process 2000000 files at once. Currently the limit is 1048576.");
}

#[test]
fn too_few_names_are_reported_before_too_many_files() {
    let files = vec![(); FILE_COUNT_MAX + 1];
    let refused = generate_random_names(&files, CharSet::Numbers, 2, None).unwrap_err();
    assert_eq!(
        refused,
        NameGenerationError::InsufficientNamingSpace { needs: FILE_COUNT_MAX + 1, space: 100 }
    );
}

#[test]
fn more_files_than_the_limit_are_refused() {
    let files = vec![(); FILE_COUNT_MAX + 1];
    for forced in [None, Some(NameGenerationStrategy::OnDemand), Some(NameGenerationStrategy::Match)]
    {
        let refused = generate_random_names(&files, CharSet::Base16Lower, 8, forced).unwrap_err();
        assert_eq!(refused, NameGenerationError::TooManyFiles { count: FILE_COUNT_MAX + 1 });
    }
}

#[test]
fn the_limits_are_powers_of_two() {
    assert_eq!(FILE_COUNT_MAX, 1 << 20);
    assert_eq!(PERMUTATION_COUNT_MAX, 1 << 24);
}

#[test]
fn enumeration_is_refused_just_above_its_limit() {
    let files = file_list(2);
    let refused = generate_then_match(&files, CharSet::Base16Upper, 7).unwrap_err();
    assert_eq!(
        refused,
        NameGenerationError::TooManyPermutations { char_set: CharSet::Base16Upper, length: 7 }
    );
    let pairs = generate_then_match(&files, CharSet::Base16Upper, 4).unwrap();
    assert_assignment(&pairs, &files, CharSet::Base16Upper.get_char_set(), 4);
}

#[test]
fn the_strategy_turns_at_one_file_in_ten_names() {
    assert_eq!(select_strategy(9, 10, 2, None), NameGenerationStrategy::OnDemand);
    assert_eq!(select_strategy(10, 10, 2, None), NameGenerationStrategy::Match);
    assert_eq!(select_strategy(11, 10, 2, None), NameGenerationStrategy::Match);
    assert_eq!(select_strategy(0, 10, 2, None), NameGenerationStrategy::OnDemand);
    assert_eq!(select_strategy(0, 0, 2, None), NameGenerationStrategy::Match);
    assert_eq!(select_strategy(usize::MAX, 2, 70, None), NameGenerationStrategy::OnDemand);
    assert_eq!(select_strategy(usize::MAX, 2, 64, None), NameGenerationStrategy::Match);
}

#[test]
fn the_same_ratio_gets_the_same_strategy_every_time() {
    for _ in 0..3 {
        assert_eq!(select_strategy(5, 10, 1, None), select_strategy(50, 10, 2, None));
        assert_eq!(select_strategy(1, 10, 2, None), select_strategy(10, 10, 3, None));
        assert_eq!(select_strategy(1, 4, 2, None), select_strategy(16, 4, 4, None));
    }
}

#[test]
fn a_forced_strategy_is_taken_as_it_is() {
    for strategy in [NameGenerationStrategy::OnDemand, NameGenerationStrategy::Match] {
        assert_eq!(select_strategy(5, 10, 1, Some(strategy)), strategy);
        assert_eq!(select_strategy(1, 16, 8, Some(strategy)), strategy);
    }
}

#[test]
fn the_naming_space_is_a_power() {
    assert_eq!(space_up_to(10, 3, 1000), Some(1000));
    assert_eq!(space_up_to(10, 3, 999), None);
    assert_eq!(space_up_to(16, 8, u128::MAX), Some(4294967296));
    assert_eq!(space_up_to(2, 127, u128::MAX), Some(1 << 127));
    assert_eq!(space_up_to(2, 128, u128::MAX), None);
    assert_eq!(space_up_to(7, 0, 5), Some(1));
    assert_eq!(space_up_to(0, 0, 5), Some(1));
    assert_eq!(space_up_to(0, 9, 5), Some(0));
    assert_eq!(space_up_to(1, usize::MAX, 5), Some(1));
    assert_eq!(space_up_to(1, 3, 0), None);
    assert_eq!(space_up_to(0, 3, 0), Some(0));
    assert_eq!(space_up_to(64, usize::MAX, u128::MAX), None);
}

#[test]
fn names_are_enumerated_with_the_last_symbol_changing_first() {
    let bits = ['0', '1'];
    let names: Vec<String> = (0..8).map(|index| name_at(&bits, 3, index)).collect();
    assert_eq!(names, vec!["000", "001", "010", "011", "100", "101", "110", "111"]);
    assert_eq!(name_at(CharSet::Numbers.get_char_set(), 4, 1234), "1234");
    assert_eq!(name_at(CharSet::Numbers.get_char_set(), 4, 7), "0007");
    assert_eq!(name_at(CharSet::Base16Lower.get_char_set(), 2, 255), "ff");
    assert_eq!(name_at(&bits, 0, 0), "");
}

#[test]
fn the_first_unused_name_skips_what_is_taken() {
    let digits = CharSet::Numbers;
    let files = file_list(3);
    let taken: Vec<(&String, String)> =
        vec![(&files[0], "1".to_string()), (&files[1], "0".to_string()), (&files[2], "3".to_string())];
    assert_eq!(first_unused_name(digits.get_char_set(), 1, &taken), "2");
    let none: Vec<(&String, String)> = Vec::new();
    assert_eq!(first_unused_name(digits.get_char_set(), 2, &none), "00");
    let in_order: Vec<(&String, String)> =
        vec![(&files[0], "00".to_string()), (&files[1], "01".to_string())];
    assert_eq!(first_unused_name(digits.get_char_set(), 2, &in_order), "02");
}

#[test]
fn refusals_read_as_sentences() {
    assert_eq!(
        NameGenerationError::InsufficientNamingSpace { needs: 11, space: 10 }.to_string(),
        "This combination of character set and length cannot uniquely cover every file.\n\
         There are 11 files but only 10 unique names available."
    );
    assert_eq!(
        NameGenerationError::TooManyFiles { count: 2000000 }.to_string(),
        "Cannot process 2000000 files at once. Currently the limit is 1048576."
    );
    assert_eq!(
        NameGenerationError::TooManyPermutations { char_set: CharSet::Base64, length: 40 }
            .to_string(),
        "Cannot enumerate all permutations with the character set [A-Za-z0-9-_] and length 40."
    );
    assert_eq!(
        NameGenerationError::TooManyPermutations { char_set: custom("01"), length: 0 }.to_string(),
        "Cannot enumerate all permutations with the character set Custom(\"01\") and length 0."
    );
}
