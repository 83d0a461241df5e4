use storage_node::retry::{
    decide_retry, is_nonce_error, mentions_nonce, retry_on_nonce_error, RetryConfig, RetryStep,
};

#[test]
fn nonce_errors_are_recognised_in_any_case() {
    for text in [
        "Invalid Nonce",
        "NONCE TOO LOW: have 5",
        "a nonce conflict arose",
        "nonce too high",
        "Replacement transaction UNDERPRICED",
    ] {
        assert!(is_nonce_error(text));
    }
    assert!(!is_nonce_error("insufficient funds"));
    assert!(!is_nonce_error("nonce"));
    assert!(!is_nonce_error(""));
}

const PHRASES: [&str; 5] = [
    "invalid nonce",
    "nonce too low",
    "nonce conflict",
    "nonce too high",
    "replacement transaction underpriced",
];

/// What searching the text in full lower case finds.
fn found_in_lower_case(text: &str) -> bool {
    let lower = text.to_lowercase();
    PHRASES.iter().any(|phrase| lower.contains(phrase))
}

#[test]
fn case_and_surroundings_do_not_matter() {
    for text in ["nonce too low", "Invalid nonce", "gas limit", "no nonce", "", "Σ: Nonce Too Low Σ"] {
        let found = is_nonce_error(text);
        assert_eq!(is_nonce_error(&text.to_ascii_uppercase()), found);
        assert_eq!(is_nonce_error(&text.to_ascii_lowercase()), found);
        if found {
            assert!(is_nonce_error(&format!("lỗi -32000: {}; ΟΔΟΣ", text)));
        }
    }
}

#[test]
fn no_other_character_lowers_into_a_phrase() {
    for c in '\u{80}'..=char::MAX {
        let lower: String = c.to_lowercase().collect();
        if lower.chars().any(|l| l.is_ascii()) {
            assert!(lower == "k" || lower == "i\u{307}");
        }
    }
    for phrase in PHRASES {
        assert!(!phrase.contains('k'));
        assert!(!phrase.ends_with('i'));
    }
}

#[test]
fn texts_beyond_ascii_are_searched_alike() {
    for phrase in PHRASES {
        for other in ['İ', 'K', 'ſ', 'Σ', 'ı', 'Ⅰ', 'ｎ', 'Å', '\u{307}'] {
            for at in 0..=phrase.len() {
                let (head, tail) = phrase.split_at(at);
                let upper = head.to_uppercase();
                let put_in = format!("{}{}{}", upper, other, tail);
                assert_eq!(is_nonce_error(&put_in), found_in_lower_case(&put_in));
                let in_place = format!("{}{}{}", upper, other, tail.get(1..).unwrap_or(""));
                assert_eq!(is_nonce_error(&in_place), found_in_lower_case(&in_place));
            }
        }
    }
}

#[test]
fn lower_case_is_expected_of_lowered_texts() {
    assert!(mentions_nonce("nonce too low"));
    assert!(!mentions_nonce("NONCE TOO LOW"));
}

#[test]
fn defaults() {
    let config = RetryConfig::default();
    assert_eq!(config.max_retries, 3);
    assert_eq!(config.delay_ms, 1000);
}

#[test]
fn attempts_are_bounded() {
    let config = RetryConfig { max_retries: 3, delay_ms: 7 };
    let error = Some("nonce too low");
    let first = retry_on_nonce_error(&config, 0, error);
    assert_eq!(first, RetryStep::Retry { attempts: 1, delay_ms: 7 });
    let second = retry_on_nonce_error(&config, 1, error);
    assert_eq!(second, RetryStep::Retry { attempts: 2, delay_ms: 7 });
    assert_eq!(retry_on_nonce_error(&config, 2, error), RetryStep::Return);
}

#[test]
fn outcomes_are_handed_back() {
    let config = RetryConfig::default();
    assert_eq!(retry_on_nonce_error(&config, 0, None), RetryStep::Return);
    assert_eq!(retry_on_nonce_error(&config, 0, Some("out of gas")), RetryStep::Return);
    let never = RetryConfig { max_retries: 0, delay_ms: 7 };
    assert_eq!(decide_retry(&never, 0, true), RetryStep::Return);
}
