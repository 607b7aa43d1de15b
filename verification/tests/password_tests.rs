use krabbypatty::{
    excludes_whole_range, generate_password, parse_exclude_chars, random_ascii, sanitize_password,
};

#[test]
fn sanitize_password_test() {
    let dirty_string = "abc123$*(";
    let sanitized_string = sanitize_password(String::from(dirty_string), String::from("$*("));
    assert!(!sanitized_string.contains('$'));
    assert!(!sanitized_string.contains('*'));
    assert!(!sanitized_string.contains('('));
}

#[test]
fn parse_exclude_chars_test() {
    let exclude_test_chars = vec!['*', ')', '@'];
    let exclude_chars = String::from("* ) @");

    assert_eq!(exclude_test_chars, parse_exclude_chars(exclude_chars));
}

#[test]
fn random_ascii_test() {
    let val = random_ascii() as u8;
    assert!(val.is_ascii());
    assert!(val.is_ascii_graphic() || val == b' ');
}

#[test]
fn generate_password_test() {
    let exclude_chars = String::from("abcde");
    let password = generate_password(10, Some(exclude_chars.clone()));
    assert!(!password.is_empty());
    assert_eq!(password.len(), 10);

    for c in exclude_chars.chars() {
        assert!(!password.contains(c));
    }
}

#[test]
fn random_ascii_stays_in_range() {
    let mut min: u32 = u32::MAX;
    let mut max: u32 = 0;
    for _ in 0..10_000 {
        let code = random_ascii();
        if code < min {
            min = code;
        }
        if code > max {
            max = code;
        }
    }
    assert!(min >= 32);
    assert!(max <= 126);
}

#[test]
fn generate_without_exclusions_is_printable() {
    let password = generate_password(16, None);
    assert_eq!(password.chars().count(), 16);
    for c in password.chars() {
        let code = c as u32;
        assert!((32..=126).contains(&code));
    }
}

#[test]
fn generate_longest_password() {
    let password = generate_password(255, None);
    assert_eq!(password.chars().count(), 255);
    for c in password.chars() {
        let code = c as u32;
        assert!((32..=126).contains(&code));
    }
}

#[test]
fn generate_with_exclusions_avoids_them() {
    let exclude_chars = String::from("0123456789");
    let password = generate_password(64, Some(exclude_chars.clone()));
    assert_eq!(password.chars().count(), 64);
    for c in password.chars() {
        let code = c as u32;
        assert!((32..=126).contains(&code));
        assert!(!exclude_chars.contains(c));
    }
}

#[test]
fn generate_zero_length_is_empty() {
    assert_eq!(generate_password(0, None), "");
    assert_eq!(generate_password(0, Some(String::new())), "");
    assert_eq!(generate_password(0, Some(String::from("abc"))), "");
    // Even an exclusion set covering the whole generation range is fine when
    // nothing has to be drawn.
    let everything: String = (32u8..=126).map(|b| b as char).collect();
    assert_eq!(generate_password(0, Some(everything)), "");
}

#[test]
fn parse_exclude_chars_strips_commas_and_spaces() {
    assert_eq!(parse_exclude_chars(String::from("*, ), @")), vec!['*', ')', '@']);
    assert_eq!(parse_exclude_chars(String::from("")), Vec::<char>::new());
}

#[test]
fn parse_exclude_chars_delimiters_only() {
    assert_eq!(parse_exclude_chars(String::from(" , ")), Vec::<char>::new());
    assert_eq!(parse_exclude_chars(String::from(",,  ,")), Vec::<char>::new());
}

#[test]
fn sanitize_is_idempotent() {
    let exclude = String::from("$*(");
    let once = sanitize_password(String::from("abc123$*("), exclude.clone());
    let twice = sanitize_password(once.clone(), exclude.clone());
    assert_eq!(once.len(), twice.len());
    for c in exclude.chars() {
        assert!(!once.contains(c));
        assert!(!twice.contains(c));
    }
    // A string that is already clean comes back unchanged.
    assert_eq!(once, twice);
}

#[test]
fn sanitize_keeps_allowed_characters_in_place() {
    let clean = sanitize_password(String::from("hello"), String::from("xyz"));
    assert_eq!(clean, "hello");
}

#[test]
fn sanitize_replaces_every_excluded_character() {
    let sanitized = sanitize_password(String::from("aaaa"), String::from("a"));
    assert_eq!(sanitized.chars().count(), 4);
    for c in sanitized.chars() {
        let code = c as u32;
        assert!(c != 'a');
        assert!((32..=126).contains(&code));
    }
}

#[test]
fn excludes_whole_range_test() {
    assert!(!excludes_whole_range(""));
    assert!(!excludes_whole_range("abc"));
    let everything: String = (32u8..=126).map(|b| b as char).collect();
    assert!(excludes_whole_range(&everything));
    let almost: String = (33u8..=126).map(|b| b as char).collect();
    assert!(!excludes_whole_range(&almost));
}
