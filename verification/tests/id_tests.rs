use ipelfs::id::{
    accept_candidate, candidate_from_draws, gen_id, generate_unique_id, id_in_use, is_valid_id,
    Draw, IdPolicy,
};

fn well_formed(id: &str, length: usize) -> bool {
    let chars: Vec<char> = id.chars().collect();
    chars.len() == length
        && chars[0].is_ascii_lowercase()
        && chars.iter().all(|c| c.is_ascii_lowercase() || c.is_ascii_digit())
}

#[test]
fn minted_id_has_the_requested_length() {
    let existing: Vec<String> = Vec::new();
    let id = generate_unique_id(7, &existing).expect("nothing is in use");
    assert_eq!(id.chars().count(), 7);
    assert!(is_valid_id(&id));
}

#[test]
fn minted_ids_are_well_formed_and_unused() {
    let mut existing: Vec<String> = Vec::new();
    for _ in 0..200 {
        let id = generate_unique_id(7, &existing).expect("the namespace is far from full");
        assert!(well_formed(&id, 7), "{}", id);
        assert!(!existing.contains(&id));
        existing.push(id);
    }
}

#[test]
fn lengths_under_five_are_refused() {
    let existing: Vec<String> = Vec::new();
    assert!(generate_unique_id(0, &existing).is_none());
    assert!(generate_unique_id(4, &existing).is_none());
    assert!(generate_unique_id(5, &existing).is_some());
}

#[test]
fn longer_ids_can_be_minted() {
    let existing: Vec<String> = Vec::new();
    let id = generate_unique_id(9, &existing).expect("nothing is in use");
    assert!(well_formed(&id, 9));
    assert!(!is_valid_id(&id));
}

#[test]
fn gen_id_gives_seven_characters() {
    for _ in 0..50 {
        let id = gen_id();
        assert!(well_formed(&id, 7), "{}", id);
        assert!(is_valid_id(&id));
    }
}

#[test]
fn candidate_spells_out_its_draws() {
    let draws = vec![
        Draw::Letter(1),
        Draw::Digit(3),
        Draw::Letter(23),
        Draw::Digit(9),
        Draw::Letter(16),
        Draw::Digit(2),
        Draw::Letter(25),
    ];
    assert_eq!(candidate_from_draws(&draws), "b3x9q2z");
    assert_eq!(candidate_from_draws(&Vec::new()), "");
    assert_eq!(candidate_from_draws(&vec![Draw::Letter(0), Draw::Digit(0)]), "a0");
}

#[test]
fn draw_to_char_covers_both_classes() {
    assert_eq!(Draw::Letter(0).to_char(), 'a');
    assert_eq!(Draw::Letter(25).to_char(), 'z');
    assert_eq!(Draw::Digit(0).to_char(), '0');
    assert_eq!(Draw::Digit(9).to_char(), '9');
}

#[test]
fn a_policy_of_digits_only_draws_digits_after_the_first() {
    let policy = IdPolicy { length: 12, digit_weight: 5, weight_scale: 5, max_draws: 4 };
    for _ in 0..20 {
        let draws = policy.draw();
        assert_eq!(draws.len(), 12);
        assert!(matches!(draws[0], Draw::Letter(n) if n < 26));
        for d in &draws[1..] {
            assert!(matches!(d, Draw::Digit(n) if *n < 10));
        }
    }
}

#[test]
fn a_policy_without_digits_draws_letters_only() {
    let policy = IdPolicy { length: 12, digit_weight: 0, weight_scale: 5, max_draws: 4 };
    for _ in 0..20 {
        let id = policy.candidate();
        assert_eq!(id.chars().count(), 12);
        assert!(id.chars().all(|c| c.is_ascii_lowercase()), "{}", id);
    }
}

#[test]
fn the_canonical_policy_mixes_letters_and_digits() {
    let policy = IdPolicy::canonical();
    assert_eq!(policy.length, 7);
    assert_eq!(policy.digit_weight, 7);
    assert_eq!(policy.weight_scale, 10);
    let mut digits = 0usize;
    let mut letters = 0usize;
    for _ in 0..300 {
        for c in policy.candidate().chars().skip(1) {
            if c.is_ascii_digit() {
                digits += 1;
            } else {
                letters += 1;
            }
        }
    }
    assert!(digits > letters);
    assert!(letters > 0);
}

#[test]
fn with_length_keeps_the_canonical_bias() {
    let policy = IdPolicy::with_length(5);
    assert_eq!(policy.length, 5);
    assert_eq!(policy.digit_weight, 7);
    assert_eq!(policy.weight_scale, 10);
    assert_eq!(policy.max_draws, IdPolicy::canonical().max_draws);
}

#[test]
fn a_policy_without_draws_mints_nothing() {
    let policy = IdPolicy { length: 7, digit_weight: 7, weight_scale: 10, max_draws: 0 };
    assert!(policy.generate(&Vec::new()).is_none());
}

#[test]
fn a_full_namespace_is_reported() {
    // One letter: twenty-six candidates, all of them in use.
    let policy = IdPolicy { length: 1, digit_weight: 0, weight_scale: 1, max_draws: 50 };
    let existing: Vec<String> = ('a'..='z').map(|c| c.to_string()).collect();
    assert!(policy.generate(&existing).is_none());
    let all_but_q: Vec<String> = ('a'..='z').filter(|c| *c != 'q').map(|c| c.to_string()).collect();
    match policy.generate(&all_but_q) {
        Some(id) => assert_eq!(id, "q"),
        None => {}
    }
}

#[test]
fn valid_ids_match_the_pattern() {
    assert!(is_valid_id("b3x9q2z"));
    assert!(is_valid_id("abcde"));
    assert!(is_valid_id("a1234"));
    assert!(is_valid_id("a12345"));
    assert!(!is_valid_id(""));
    assert!(!is_valid_id("abcd"));
    assert!(!is_valid_id("abcdefgh"));
    assert!(!is_valid_id("1bcdefg"));
    assert!(!is_valid_id("Abcdefg"));
    assert!(!is_valid_id("abc-efg"));
    assert!(!is_valid_id("abcdéfg"));
    assert!(!is_valid_id("abcd fg"));
}

#[test]
fn ids_in_use_are_found() {
    let existing = vec!["b3x9q2z".to_string(), "k2p0stu".to_string()];
    assert!(id_in_use(&existing, &"k2p0stu".to_string()));
    assert!(!id_in_use(&existing, &"f7h1mno".to_string()));
    assert!(!id_in_use(&Vec::new(), &"k2p0stu".to_string()));
}

#[test]
fn a_candidate_in_use_is_dropped() {
    let existing = vec!["b3x9q2z".to_string()];
    assert_eq!(accept_candidate("b3x9q2z".to_string(), &existing), None);
    assert_eq!(accept_candidate("k2p0stu".to_string(), &existing), Some("k2p0stu".to_string()));
}

#[test]
fn a_policy_that_cannot_be_drawn_from_mints_nothing() {
    let none = Vec::new();
    for policy in [
        IdPolicy { length: 0, digit_weight: 7, weight_scale: 10, max_draws: 4 },
        IdPolicy { length: 7, digit_weight: 7, weight_scale: 0, max_draws: 4 },
        IdPolicy { length: 7, digit_weight: 11, weight_scale: 10, max_draws: 4 },
    ] {
        assert!(!policy.is_valid());
        assert!(policy.generate(&none).is_none());
    }
    assert!(IdPolicy::canonical().is_valid());
    assert!(IdPolicy::canonical().generate(&none).is_some());
}

#[test]
fn an_index_beyond_its_class_counts_round() {
    assert_eq!(Draw::Letter(26).to_char(), 'a');
    assert_eq!(Draw::Letter(255).to_char(), 'v');
    assert_eq!(Draw::Digit(10).to_char(), '0');
    assert_eq!(Draw::Digit(255).to_char(), '5');
    assert_eq!(candidate_from_draws(&vec![Draw::Letter(27), Draw::Digit(13)]), "b3");
}
