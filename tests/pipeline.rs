use web_api::alphabet::{AlphabetIndex, ENCODED_LEN};
use web_api::request::{is_supported_language, validate_lowered, PredictRequest, Rejection};
use web_api::response::{label, PredictResponse, SCORE_COUNT};

fn request(language: &str, data: &str) -> PredictRequest {
    PredictRequest::new(language.to_string(), data.to_string())
}

#[test]
fn short_data_is_rejected_whatever_the_language() {
    for data in ["", "a", "ab", "abc"] {
        for language in ["english", "English", "french", ""] {
            assert_eq!(request(language, data).validate(), Err(Rejection::InputTooShort));
        }
    }
}

#[test]
fn short_data_counts_bytes() {
    // two characters of two bytes each make four bytes
    assert_eq!(request("english", "éé").validate(), Ok(()));
    assert_eq!(request("english", "é").validate(), Err(Rejection::InputTooShort));
}

#[test]
fn other_language_is_rejected() {
    for language in ["french", "englis", "english ", "", "deutsch"] {
        assert_eq!(request(language, "test").validate(), Err(Rejection::UnsupportedLanguage));
    }
}

#[test]
fn english_in_any_case_is_accepted() {
    for language in ["english", "ENGLISH", "EnGlIsH"] {
        assert_eq!(request(language, "test").validate(), Ok(()));
    }
}

#[test]
fn rejection_messages() {
    assert_eq!(Rejection::InputTooShort.message(), "Input data length must be at least 4 bytes");
    assert_eq!(Rejection::UnsupportedLanguage.message(), "The language is not supported");
}

#[test]
fn lowered_language_check() {
    assert!(is_supported_language(&"english".to_string()));
    assert!(!is_supported_language(&"English".to_string()));
    assert_eq!(validate_lowered(&"english".to_string(), "abcd"), Ok(()));
    assert_eq!(validate_lowered(&"spanish".to_string(), "abcd"), Err(Rejection::UnsupportedLanguage));
    assert_eq!(validate_lowered(&"english".to_string(), "abc"), Err(Rejection::InputTooShort));
}

#[test]
fn encode_has_fixed_width() {
    let index = AlphabetIndex::new();
    for text in ["", "a", "hello world", &"x".repeat(300), "ñandú"] {
        assert_eq!(index.encode(text).len(), ENCODED_LEN);
    }
}

#[test]
fn encode_empty_is_zeros() {
    let index = AlphabetIndex::new();
    assert_eq!(index.encode(""), vec![0u32; 128]);
}

#[test]
fn encode_outside_alphabet_is_zeros() {
    let index = AlphabetIndex::new();
    assert_eq!(index.encode("éñü€日本"), vec![0u32; 128]);
}

#[test]
fn encode_positions_and_skips() {
    let index = AlphabetIndex::new();
    let r = index.encode("aé\u{0}b");
    assert_eq!(&r[..3], &[98, 1, 99]);
    assert!(r[3..].iter().all(|&v| v == 0));
    let r = index.encode("\u{7f}");
    assert_eq!(r[0], 128);
}

#[test]
fn encode_truncates_long_text() {
    let index = AlphabetIndex::new();
    let text: String = (0..200).map(|i| char::from(b'a' + (i % 26) as u8)).collect();
    let r = index.encode(&text);
    let expected: Vec<u32> = text.chars().take(128).map(|c| c as u32 + 1).collect();
    assert_eq!(r, expected);
}

#[test]
fn encode_is_deterministic() {
    let index = AlphabetIndex::new();
    assert_eq!(index.encode("Hello, World!"), index.encode("Hello, World!"));
    let other = AlphabetIndex::new();
    assert_eq!(index.encode("Hello, World!"), other.encode("Hello, World!"));
}

#[test]
fn prepare_encodes_valid_requests_only() {
    let index = AlphabetIndex::new();
    assert_eq!(request("english", "abc").prepare(&index), Err(Rejection::InputTooShort));
    assert_eq!(request("latin", "abcd").prepare(&index), Err(Rejection::UnsupportedLanguage));
    let v = request("English", "test").prepare(&index).unwrap();
    assert_eq!(v, index.encode("test"));
    assert_eq!(&v[..4], &[117, 102, 116, 117]);
}

#[test]
fn labels_in_score_order() {
    let names: Vec<&str> = (0..SCORE_COUNT).map(label).collect();
    assert_eq!(names, ["text", "rot13", "caesar", "base85", "base64", "base58"]);
}

#[test]
fn response_from_stub_scores() {
    let scores: [f32; 6] = [0.9123, 0.01, 0.0, 0.0, 0.0, 0.05];
    let fields: Vec<String> = scores.iter().map(|s| format!("{:.2}", s * 100.0)).collect();
    let r = PredictResponse::from_fields(fields).unwrap();
    assert_eq!(r.text, "91.23");
    assert_eq!(r.rot13, "1.00");
    assert_eq!(r.caesar, "0.00");
    assert_eq!(r.base85, "0.00");
    assert_eq!(r.base64, "0.00");
    assert_eq!(r.base58, "5.00");
    assert_eq!(r.get(5), "5.00");
}

#[test]
fn response_needs_six_fields() {
    assert!(PredictResponse::from_fields(vec!["1".to_string(); 5]).is_none());
    assert!(PredictResponse::from_fields(vec!["1".to_string(); 7]).is_none());
    assert!(PredictResponse::from_fields(Vec::new()).is_none());
}
