use furbrowser_rs::error::{first_row, FurbrowserError};
use furbrowser_rs::text::{
    chars_of, decimal_string, is_whitespace_char, replace_all_str, signed_decimal_string, trimmed,
};
use furbrowser_rs::vote::{ImageVote, Score};

#[test]
fn whitespace_agrees_with_std_on_every_char() {
    for n in 0u32..=0x10FFFF {
        if let Some(c) = char::from_u32(n) {
            assert_eq!(is_whitespace_char(c), c.is_whitespace(), "char {:#x}", n);
        }
    }
}

#[test]
fn trimmed_agrees_with_std() {
    let samples = [
        "", "   ", "abc", "  abc  ", "\t\na b\r\n", "\u{3000}x\u{2029}", "\u{85}#c\u{a0}", " a\u{200b} ",
    ];
    for s in samples {
        assert_eq!(trimmed(s), s.trim());
    }
}

#[test]
fn chars_of_keeps_order() {
    assert_eq!(chars_of("hé!"), vec!['h', 'é', '!']);
    assert!(chars_of("").is_empty());
}

#[test]
fn decimal_rendering() {
    assert_eq!(decimal_string(0), "0");
    assert_eq!(decimal_string(7), "7");
    assert_eq!(decimal_string(1234567890), "1234567890");
    assert_eq!(decimal_string(u64::MAX), u64::MAX.to_string());
    assert_eq!(signed_decimal_string(-1), "-1");
    assert_eq!(signed_decimal_string(0), "0");
    assert_eq!(signed_decimal_string(i64::MIN), i64::MIN.to_string());
    assert_eq!(signed_decimal_string(i64::MAX), i64::MAX.to_string());
}

#[test]
fn replace_agrees_with_std() {
    let cases = [
        ("furbrowser/VERSION", "VERSION", "1.2.3"),
        ("VERSIONVERSION", "VERSION", "x"),
        ("no pattern here", "VERSION", "x"),
        ("aaa", "aa", "b"),
        ("", "a", "b"),
        ("VERSIO", "VERSION", "x"),
    ];
    for (s, pat, rep) in cases {
        assert_eq!(replace_all_str(s, pat, rep), s.replace(pat, rep));
    }
}

#[test]
fn vote_from_answer() {
    assert_eq!(ImageVote::from(true), ImageVote::Up);
    assert_eq!(ImageVote::from(false), ImageVote::Down);
}

#[test]
fn reverse_twice_is_identity() {
    for v in [ImageVote::Up, ImageVote::Down] {
        assert_eq!(v.reverse().reverse(), v);
        assert_ne!(v.reverse(), v);
        assert_eq!(v.reverse().as_i32(), -v.as_i32());
        assert_ne!(v.reverse().flag(), v.flag());
    }
    assert_eq!(ImageVote::from(false), ImageVote::from(true).reverse());
}

#[test]
fn vote_texts() {
    assert_eq!(ImageVote::Up.as_i32(), 1);
    assert_eq!(ImageVote::Down.as_i32(), -1);
    assert_eq!(ImageVote::Up.flag(), "TRUE");
    assert_eq!(ImageVote::Down.flag(), "FALSE");
    assert_eq!(ImageVote::Up.to_string(), "1");
    assert_eq!(ImageVote::Down.to_string(), "-1");
}

#[test]
fn score_breakdown() {
    let s = Score { upvotes: 3, downvotes: 4 };
    assert_eq!(s.breakdown(), "3 up, 4 down, 7 total");
    let z = Score { upvotes: 0, downvotes: 0 };
    assert_eq!(z.breakdown(), "0 up, 0 down, 0 total");
}

#[test]
fn error_messages() {
    let cases = vec![
        (FurbrowserError::SQL("bad".to_string()), "Error running SQL query: bad"),
        (FurbrowserError::IO("gone".to_string()), "Error with I/O: gone"),
        (FurbrowserError::TOML("syntax".to_string()), "Error decoding TOML data: syntax"),
        (FurbrowserError::HTTP("404".to_string()), "Error running HTTP request: 404"),
        (
            FurbrowserError::Environment("environment variable not found".to_string()),
            "Error with environment variable: environment variable not found",
        ),
        (FurbrowserError::SyncSQLFetch, "Error processing SQL data"),
        (FurbrowserError::Readline, "Error reading line"),
        (FurbrowserError::NoSuchProfile, "No such profile defined in the configuration file"),
        (FurbrowserError::NoValidHome, "Could not find the current user's home directory"),
        (
            FurbrowserError::MissingQuery,
            "Either 'query' or 'queries' needs to be defined in the profile",
        ),
    ];
    for (e, msg) in cases {
        assert_eq!(e.to_string(), msg);
    }
}

#[test]
fn first_row_of_query() {
    assert!(matches!(first_row::<i64>(None), Err(FurbrowserError::SyncSQLFetch)));
    assert!(matches!(first_row::<i64>(Some(Ok(5))), Ok(5)));
    assert!(matches!(
        first_row::<i64>(Some(Err(FurbrowserError::SQL("x".to_string())))),
        Err(FurbrowserError::SQL(_))
    ));
}

#[test]
fn trimming_twice_is_trimming_once() {
    for s in ["  a b  ", "\u{2000}x\t", "", " \n "] {
        let once = trimmed(s);
        assert_eq!(trimmed(&once), once);
        if let Some(c) = once.chars().next() {
            assert!(!c.is_whitespace());
        }
        if let Some(c) = once.chars().last() {
            assert!(!c.is_whitespace());
        }
    }
}
