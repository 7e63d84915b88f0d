use afm::duration::{
    parse_duration_days, parse_duration_seconds, pause_until, pause_until_at, seconds_fit,
};
use afm::number::{parse_number, to_decimal, to_decimal_int, NumberError};
use afm::paths::{components_of, join, lies_inside, Platform};
use afm::policy::{
    conflict_arg, conflict_report, default_conflict_policy, ConflictArg, ConflictPolicy,
};
use afm::text::{
    begins_with, bool_to_text, chars_of, find_char, has_char, pad_right, replace_char, rfind_char,
    take_chars, text_between, to_lower, trim,
};

#[test]
fn numbers_are_written_in_decimal() {
    assert_eq!(to_decimal(0), "0");
    assert_eq!(to_decimal(120), "120");
    assert_eq!(to_decimal(u128::MAX), "340282366920938463463374607431768211455");
    assert_eq!(to_decimal_int(-7), "-7");
    assert_eq!(to_decimal_int(i64::MIN), "-9223372036854775808");
    assert_eq!(to_decimal_int(i64::MAX), "9223372036854775807");
}

#[test]
fn numbers_are_read_back() {
    for n in [0u64, 1, 9, 10, 99, 12345, u64::MAX] {
        assert_eq!(parse_number(&to_decimal(n as u128), u64::MAX), Ok(n));
    }
    assert_eq!(parse_number("+7", u64::MAX), Ok(7));
    assert_eq!(parse_number("007", 10), Ok(7));
}

#[test]
fn texts_that_are_no_numbers() {
    assert_eq!(parse_number("", 10), Err(NumberError::Empty));
    assert_eq!(parse_number("+", 10), Err(NumberError::InvalidDigit));
    assert_eq!(parse_number("-1", 10), Err(NumberError::InvalidDigit));
    assert_eq!(parse_number("1x", 10), Err(NumberError::InvalidDigit));
    assert_eq!(parse_number("11", 10), Err(NumberError::TooLarge));
    assert_eq!(parse_number("18446744073709551616", u64::MAX), Err(NumberError::TooLarge));
}

#[test]
fn number_errors_agree_with_the_standard_library() {
    for text in ["", "+", "-1", "1x", "99999999999999999999", "9999999999999999999x"] {
        let expected = text.parse::<u64>().unwrap_err().to_string();
        assert_eq!(parse_number(text, u64::MAX).unwrap_err().message(), expected);
    }
    for text in ["", "+", "4294967296", "-0", "+0", "4294967295"] {
        let expected = text.parse::<u32>().ok().map(|n| n as u64);
        assert_eq!(parse_number(text, u32::MAX as u64).ok(), expected);
    }
}

#[test]
fn durations_in_seconds() {
    assert_eq!(parse_duration_seconds("90"), Ok(90));
    assert_eq!(parse_duration_seconds("90s"), Ok(90));
    assert_eq!(parse_duration_seconds("2m"), Ok(120));
    assert_eq!(parse_duration_seconds("2h"), Ok(7200));
    assert_eq!(parse_duration_seconds(" 3d\n"), Ok(259_200));
    assert_eq!(parse_duration_seconds("d"), Err(NumberError::Empty));
    assert_eq!(parse_duration_seconds("3w"), Err(NumberError::InvalidDigit));
    assert_eq!(parse_duration_seconds("3 d"), Err(NumberError::InvalidDigit));
}

#[test]
fn durations_in_days() {
    assert_eq!(parse_duration_days("30d"), Ok(30));
    assert_eq!(parse_duration_days("47h"), Ok(1));
    assert_eq!(parse_duration_days("48h"), Ok(2));
    assert_eq!(parse_duration_days("0d"), Ok(1));
    assert_eq!(parse_duration_days("x"), Err(NumberError::InvalidDigit));
}

#[test]
fn durations_that_do_not_fit() {
    assert!(seconds_fit("18446744073709551615"));
    assert!(!seconds_fit("18446744073709551615m"));
    assert!(seconds_fit("no duration"));
    assert!(seconds_fit("213503982334601d"));
    assert!(!seconds_fit("213503982334602d"));
}

#[test]
fn pauses_end() {
    assert_eq!(pause_until_at(Some("1h"), 1000), Some(Ok(Some(4600))));
    assert_eq!(pause_until_at(Some(""), 1000), Some(Err(NumberError::Empty)));
    assert_eq!(pause_until_at(Some("0"), i64::MAX), Some(Ok(Some(i64::MAX))));
}

#[test]
fn pause_without_duration_has_no_end() {
    assert_eq!(pause_until_at(None, 1000), Some(Ok(Some(i64::MAX))));
    assert_eq!(pause_until(None), Some(Ok(Some(i64::MAX))));
}

#[test]
fn pauses_that_cannot_be_told() {
    assert_eq!(pause_until_at(Some("1"), i64::MAX), None);
    assert_eq!(pause_until_at(Some("9223372036854775808"), 0), None);
    assert_eq!(pause_until_at(Some("18446744073709551615"), 1000), None);
    assert_eq!(pause_until_at(Some("18446744073709551615d"), 0), None);
}

#[test]
fn pauses_begin_now() {
    assert_eq!(pause_until(Some("x")), Some(Err(NumberError::InvalidDigit)));
    assert_eq!(pause_until(Some("9223372036854775807")), None);
    let end = pause_until(Some("1d")).unwrap().unwrap().unwrap();
    let now = chrono::Utc::now().timestamp();
    assert!(end <= now + 86_400 && now + 86_400 - end < 1000);
}

#[test]
fn policies_are_named_in_any_case() {
    assert_eq!(ConflictArg::from_str("SKIP"), Ok(ConflictArg::Skip));
    assert_eq!(ConflictArg::from_str("Overwrite"), Ok(ConflictArg::Overwrite));
    assert_eq!(ConflictArg::from_str("rename"), Ok(ConflictArg::Rename));
    assert_eq!(ConflictArg::from_str("newest"), Ok(ConflictArg::Newest));
    assert_eq!(
        ConflictArg::from_str("oldest"),
        Err("expected skip, overwrite, rename, or newest".to_string())
    );
}

#[test]
fn policy_names_are_read_back() {
    for policy in [
        ConflictPolicy::Skip,
        ConflictPolicy::Overwrite,
        ConflictPolicy::Rename,
        ConflictPolicy::Newest,
    ] {
        let arg = ConflictArg::from_str(conflict_arg(policy)).unwrap();
        assert_eq!(ConflictPolicy::from(arg), policy);
        assert_eq!(conflict_report(policy), format!("{:?}", policy));
    }
    assert_eq!(default_conflict_policy(), ConflictPolicy::Rename);
}

#[test]
fn paths_that_are_not_text_are_joined() {
    assert_eq!(join(Platform::Unix, b"/a\xff", "b"), b"/a\xff/b");
    assert_eq!(join(Platform::Unix, b"/\xaf", "b"), b"/\xaf/b");
    assert_eq!(join(Platform::Windows, b"C:\\\xed\xa0\x80", "b"), b"C:\\\xed\xa0\x80\\b");
    assert_eq!(join(Platform::Unix, "/ä".as_bytes(), "ö"), "/ä/ö".as_bytes());
}

#[test]
fn paths_are_joined() {
    assert_eq!(join(Platform::Unix, b"/a", "b"), b"/a/b");
    assert_eq!(join(Platform::Unix, b"/", "b"), b"/b");
    assert_eq!(join(Platform::Unix, b"a\\", "b"), b"a\\/b");
    assert_eq!(join(Platform::Unix, b"", "b"), b"b");
    assert_eq!(join(Platform::Windows, b"C:\\a", "b"), b"C:\\a\\b");
    assert_eq!(join(Platform::Windows, b"C:\\", "b"), b"C:\\b");
    assert_eq!(join(Platform::Windows, b"C:/a/", "b"), b"C:/a/b");
    assert_eq!(join(Platform::Windows, b"C:", "b"), b"C:b");
}

#[test]
fn paths_lie_inside_others() {
    let inside = |base, path| lies_inside(Platform::Unix, base, path);
    assert!(inside("/a", "/a"));
    assert!(inside("/a", "/a/b"));
    assert!(inside("/", "/a"));
    assert!(!inside("/a", "/ab"));
    assert!(!inside("/a/b", "/a"));
    assert!(!inside("/a", "a/b"));
    let inside = |base, path| lies_inside(Platform::Windows, base, path);
    assert!(inside("C:\\a", "C:\\a\\b"));
    assert!(inside("\\\\?\\C:\\a", "\\\\?\\C:\\a\\b"));
    assert!(!inside("C:\\a", "D:\\a\\b"));
    assert_eq!(components_of(Platform::Windows, "C:\\a/b\\"), ["C:", "a", "b"]);
    assert!(components_of(Platform::Unix, "//").is_empty());
}

#[test]
fn lying_inside_agrees_with_the_standard_library() {
    let paths = ["/", "/a", "/a/b", "/ab", "/a/b/c", "/b/a", "/a//b", "/a/", "a", "a/b"];
    for base in paths {
        for path in paths {
            let expected = std::path::Path::new(path).starts_with(base);
            assert_eq!(lies_inside(Platform::Unix, base, path), expected);
        }
    }
}

#[test]
fn joined_paths_lie_inside() {
    for base in ["/", "/a", "/a/", "b"] {
        let joined = String::from_utf8(join(Platform::Unix, base.as_bytes(), "name")).unwrap();
        assert!(lies_inside(Platform::Unix, base, &joined));
    }
}

#[test]
fn joining_agrees_with_the_standard_library() {
    for base in ["/a", "/", "", ".", "a/b/", "a\\"] {
        let expected = std::path::Path::new(base).join("name.x");
        let bytes = join(Platform::Unix, base.as_bytes(), "name.x");
        assert_eq!(bytes, expected.as_os_str().as_encoded_bytes());
    }
}

#[test]
fn texts_are_trimmed() {
    for text in ["", " ", " a ", "\t a b\r\n", "\u{2003}x\u{3000}", "\u{200b}x", "x\u{85}"] {
        assert_eq!(trim(text), text.trim());
    }
}

#[test]
fn letters_are_lowered() {
    for text in ["ABC", "aZ09", "\u{c4}B", "[@`{"] {
        assert_eq!(to_lower(text), text.to_ascii_lowercase());
    }
}

#[test]
fn characters_are_found_and_replaced() {
    assert_eq!(replace_char("a\\b\\", '\\', "/"), "a/b/");
    assert_eq!(replace_char("aaa", 'a', "aa"), "aaaaaa");
    assert!(has_char("a@b", '@'));
    assert!(!has_char("ab", '@'));
    assert!(begins_with("~/x", "~/"));
    assert!(!begins_with("~", "~/"));
    assert!(begins_with("x", ""));
    let chars = chars_of("a=b=c");
    assert_eq!(find_char(&chars, '='), Some(1));
    assert_eq!(rfind_char(&chars, '='), Some(3));
    assert_eq!(find_char(&chars, 'x'), None);
    assert_eq!(rfind_char(&chars, 'x'), None);
    assert_eq!(text_between(&chars, 2, 5), "b=c");
}

#[test]
fn texts_are_cut_and_filled() {
    assert_eq!(take_chars("\u{e4}bc", 2), "\u{e4}b");
    assert_eq!(take_chars("ab", 5), "ab");
    assert_eq!(pad_right("\u{e4}b", 4), format!("{:<4}", "\u{e4}b"));
    assert_eq!(pad_right("abcdef", 4), "abcdef");
    assert_eq!(bool_to_text(true), "true");
    assert_eq!(bool_to_text(false), "false");
}
