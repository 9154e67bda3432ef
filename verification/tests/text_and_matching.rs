use tagvox::matching::{best_entry, normalize, occurs, score_parts};
use tagvox::text::{i64_to_string, is_whitespace, parse_u64, trim_str, u64_to_string};

fn chars(s: &str) -> Vec<char> {
    s.chars().collect()
}

#[test]
fn trim_drops_unicode_whitespace_at_both_ends() {
    assert_eq!(trim_str("  a b \t\n"), "a b");
    assert_eq!(trim_str("\u{3000}x\u{00A0}"), "x");
    assert_eq!(trim_str("   "), "");
}

#[test]
fn whitespace_class() {
    assert!(is_whitespace(' '));
    assert!(is_whitespace('\u{2028}'));
    assert!(is_whitespace('\u{85}'));
    assert!(!is_whitespace('a'));
    assert!(!is_whitespace('\u{200B}'));
}

#[test]
fn normalize_lowers_cyrillic_and_keeps_letters_and_digits() {
    assert_eq!(normalize("ПРИВЕТ Bot"), "привет bot");
    assert_eq!(normalize("Ж7!"), "ж7");
    assert_eq!(normalize("héllo"), "héllo");
}

#[test]
fn decimal_rendering() {
    assert_eq!(u64_to_string(0), "0");
    assert_eq!(u64_to_string(1234567890), "1234567890");
    assert_eq!(u64_to_string(u64::MAX), "18446744073709551615");
    assert_eq!(i64_to_string(-42), "-42");
    assert_eq!(i64_to_string(i64::MIN), "-9223372036854775808");
}

#[test]
fn u64_parsing_follows_from_str() {
    assert_eq!(parse_u64("+12"), Some(12));
    assert_eq!(parse_u64("007"), Some(7));
    assert_eq!(parse_u64(""), None);
    assert_eq!(parse_u64("+"), None);
    assert_eq!(parse_u64("-1"), None);
    assert_eq!(parse_u64(" 1"), None);
    assert_eq!(parse_u64("18446744073709551615"), Some(u64::MAX));
    assert_eq!(parse_u64("18446744073709551616"), None);
}

#[test]
fn decimal_round_trip_on_examples() {
    for n in [0u64, 9, 10, 99, 100, 123456789012345678, u64::MAX] {
        assert_eq!(parse_u64(&u64_to_string(n)), Some(n));
    }
}

#[test]
fn normalize_lowers_and_collapses() {
    assert_eq!(normalize("  Привет,   МИР!! "), "привет мир");
    assert_eq!(normalize("Play-the SONG"), "play the song");
    assert_eq!(normalize("!!!"), "");
    assert_eq!(normalize(""), "");
}

#[test]
fn normalized_text_is_single_spaced_on_examples() {
    for s in ["  a,,b  c ", "\tX\u{3000}Y\n", "...", "один  два—три"] {
        let n = normalize(s);
        assert!(!n.starts_with(' ') && !n.ends_with(' '));
        assert!(!n.contains("  "));
        assert!(n.chars().all(|c| c == ' ' || c.is_alphanumeric()));
    }
}

#[test]
fn containment_search() {
    assert!(occurs(&chars("мир"), &chars("привет мир")));
    assert!(occurs(&chars(""), &chars("abc")));
    assert!(!occurs(&chars("abcd"), &chars("abc")));
    assert!(!occurs(&chars("ac"), &chars("abc")));
}

#[test]
fn score_parts_of_a_contained_trigger() {
    let p = score_parts("Эй, бот, включи МУЗЫКУ!", "включи музыку").unwrap();
    assert_eq!(p.text, "эй бот включи музыку");
    assert_eq!(p.trigger, "включи музыку");
    assert!(p.contains);
    let q = score_parts("hello", "world").unwrap();
    assert!(!q.contains);
    assert!(score_parts("?!", "hello").is_none());
    assert!(score_parts("hello", "   ").is_none());
}

#[test]
fn best_entry_takes_the_first_of_the_highest() {
    let scores = vec![vec![1u64, 5], vec![5, 2], vec![4]];
    assert_eq!(best_entry(&scores, 3), Some(0));
    assert_eq!(best_entry(&scores, 5), Some(0));
    assert_eq!(best_entry(&scores, 6), None);
    let later = vec![vec![1u64], vec![], vec![7, 7]];
    assert_eq!(best_entry(&later, 0), Some(2));
    let empty: Vec<Vec<u64>> = vec![vec![], vec![]];
    assert_eq!(best_entry(&empty, 0), None);
}

#[test]
fn lowering_the_threshold_keeps_the_winner() {
    let scores = vec![vec![3u64], vec![9, 1]];
    assert_eq!(best_entry(&scores, 9), Some(1));
    assert_eq!(best_entry(&scores, 4), Some(1));
    assert_eq!(best_entry(&scores, 0), Some(1));
}
