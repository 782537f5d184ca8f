use vote_store::text::decimal;
use vote_store::vote::{validate_candidate, Error};

fn blank() -> Result<(), Error> {
    Err(Error::InvalidInput { msg: "Candidate name cannot be empty or whitespace".to_string() })
}

#[test]
fn decimal_writes_single_digits() {
    let digits = ["0", "1", "2", "3", "4", "5", "6", "7", "8", "9"];
    for (n, digit) in digits.iter().enumerate() {
        assert_eq!(decimal(n as u64), *digit);
    }
}

#[test]
fn decimal_writes_longer_numbers() {
    assert_eq!(decimal(10), "10");
    assert_eq!(decimal(99), "99");
    assert_eq!(decimal(100), "100");
    assert_eq!(decimal(12345), "12345");
    assert_eq!(decimal(9_007_199_254_740_993), "9007199254740993");
    assert_eq!(decimal(u64::MAX), "18446744073709551615");
}

#[test]
fn decimal_agrees_with_the_standard_library() {
    let mut n: u64 = 1;
    for _ in 0..200 {
        assert_eq!(decimal(n), n.to_string());
        n = n.wrapping_mul(6364136223846793005).wrapping_add(1442695040888963407);
    }
}

#[test]
fn validate_candidate_refuses_an_empty_name() {
    assert_eq!(validate_candidate(""), blank());
}

#[test]
fn validate_candidate_refuses_white_space() {
    assert_eq!(validate_candidate(" "), blank());
    assert_eq!(validate_candidate("   \t\r\n"), blank());
    assert_eq!(validate_candidate("\u{00A0}\u{2003}\u{3000}"), blank());
}

#[test]
fn validate_candidate_accepts_a_name() {
    assert_eq!(validate_candidate("Alice"), Ok(()));
    assert_eq!(validate_candidate("  Bob  "), Ok(()));
    assert_eq!(validate_candidate("a b"), Ok(()));
    assert_eq!(validate_candidate("\u{200B}"), Ok(()));
}

#[test]
fn an_error_hands_out_its_message() {
    let errors = [
        Error::NotFound { msg: "a".to_string() },
        Error::InvalidInput { msg: "b".to_string() },
        Error::AlreadyExists { msg: "c".to_string() },
        Error::Unauthorized { msg: "d".to_string() },
    ];
    let messages: Vec<String> = errors.iter().map(|e| e.message()).collect();
    assert_eq!(messages, vec!["a", "b", "c", "d"]);
}

#[test]
fn validate_candidate_takes_white_space_as_the_standard_library_does() {
    for code in 0..=0x10FFFFu32 {
        if let Some(c) = char::from_u32(code) {
            let refused = validate_candidate(&c.to_string()).is_err();
            assert_eq!(refused, c.is_whitespace(), "U+{:04X}", code);
        }
    }
}

#[test]
fn validate_candidate_refuses_each_white_space_character() {
    let all = "\u{9}\u{A}\u{B}\u{C}\u{D}\u{20}\u{85}\u{A0}\u{1680}\u{2000}\u{2001}\u{2002}\u{2003}\u{2004}\u{2005}\u{2006}\u{2007}\u{2008}\u{2009}\u{200A}\u{2028}\u{2029}\u{202F}\u{205F}\u{3000}";
    assert_eq!(all.chars().count(), 25);
    assert_eq!(validate_candidate(all), blank());
    for c in all.chars() {
        assert_eq!(validate_candidate(&format!("{}{}", c, c)), blank());
        assert_eq!(validate_candidate(&format!("{}x{}", c, c)), Ok(()));
    }
}

#[test]
fn validate_candidate_accepts_what_is_near_white_space() {
    for near in ["\u{8}", "\u{E}", "\u{1F}", "\u{21}", "\u{84}", "\u{86}", "\u{180E}", "\u{200B}", "\u{200C}", "\u{2060}", "\u{FEFF}"] {
        assert_eq!(validate_candidate(near), Ok(()));
    }
}
