use qingjian::cer::{cer, distance, normalize};

#[test]
fn case_and_punctuation_do_not_count() {
    let (distance, _) = cer("AFTER EARLY NIGHTFALL", "After early nightfall.");
    assert_eq!(distance, 0);
}

#[test]
fn a_chinese_substitution_costs_one() {
    assert_eq!(cer("天气不错", "天气不好"), (1, 4));
}

#[test]
fn an_empty_hypothesis_costs_the_whole_reference() {
    assert_eq!(cer("天气不错", ""), (4, 4));
}

#[test]
fn normalizing_keeps_lowercased_letters_and_digits() {
    let chars: String = normalize("Hello, World 42！").into_iter().collect();
    assert_eq!(chars, "helloworld42");
}

#[test]
fn distance_counts_insertions_deletions_and_substitutions() {
    let a: Vec<char> = "kitten".chars().collect();
    let b: Vec<char> = "sitting".chars().collect();
    assert_eq!(distance(&a, &b), 3);
    assert_eq!(distance(&b, &a), 3);
    assert_eq!(distance(&a, &a), 0);
    assert_eq!(distance(&a, &Vec::new()), 6);
}

#[test]
fn the_same_normal_form_costs_nothing() {
    assert_eq!(cer("天气，不错！", "天气不错"), (0, 4));
}

#[test]
fn an_extra_character_costs_one_insertion() {
    assert_eq!(cer("abc", "abxc"), (1, 3));
}

#[test]
fn an_empty_reference_counts_no_characters() {
    assert_eq!(cer("", "anything"), (8, 0));
}

#[test]
fn the_distance_is_at_least_the_length_gap_and_zero_only_for_equal_texts() {
    let a: Vec<char> = "开发者".chars().collect();
    let b: Vec<char> = "开发者大会现场".chars().collect();
    assert_eq!(distance(&a, &b), 4);
    assert_eq!(distance(&b, &a), 4);
    let c: Vec<char> = "开放者".chars().collect();
    assert_eq!(distance(&a, &c), 1);
    assert_eq!(distance(&a, &a), 0);
}
