use vopus9::scanner::is_video_extension;
use vopus9::text::{chars_of, decimal_chars, find_chars, parse_unsigned_chars, trim_chars};

fn chars(s: &str) -> Vec<char> {
    s.chars().collect()
}

#[test]
fn finding_text() {
    let hay = chars("abcabc");
    assert_eq!(find_chars(&hay, &chars("bc"), 0), Some(1));
    assert_eq!(find_chars(&hay, &chars("bc"), 2), Some(4));
    assert_eq!(find_chars(&hay, &chars("bc"), 5), None);
    assert_eq!(find_chars(&hay, &chars("x"), 0), None);
    assert_eq!(find_chars(&hay, &chars(""), 6), Some(6));
    assert_eq!(find_chars(&hay, &chars(""), 7), None);
}

#[test]
fn unsigned_numbers() {
    assert_eq!(parse_unsigned_chars(&chars("0"), 10), Some(0));
    assert_eq!(parse_unsigned_chars(&chars("+42"), 100), Some(42));
    assert_eq!(parse_unsigned_chars(&chars("0042"), 100), Some(42));
    assert_eq!(parse_unsigned_chars(&chars("101"), 100), None);
    assert_eq!(parse_unsigned_chars(&chars("100"), 100), Some(100));
    assert_eq!(parse_unsigned_chars(&chars(""), 100), None);
    assert_eq!(parse_unsigned_chars(&chars("+"), 100), None);
    assert_eq!(parse_unsigned_chars(&chars("++1"), 100), None);
    assert_eq!(parse_unsigned_chars(&chars("-1"), 100), None);
    assert_eq!(parse_unsigned_chars(&chars("1 "), 100), None);
    assert_eq!(parse_unsigned_chars(&chars("99999999999999999999999"), u64::MAX), None);
    assert_eq!(parse_unsigned_chars(&chars("4294967295"), u32::MAX as u64), Some(4294967295));
    assert_eq!(parse_unsigned_chars(&chars("4294967296"), u32::MAX as u64), None);
}

#[test]
fn decimal_text_reads_back() {
    for n in [0u64, 9, 10, 12345, u64::MAX] {
        let d = decimal_chars(n);
        assert_eq!(d.iter().collect::<String>(), n.to_string());
        assert_eq!(parse_unsigned_chars(&d, u64::MAX), Some(n));
    }
}

#[test]
fn trimming_like_std() {
    for s in ["", "   ", " a ", "\t1500k\n", "\u{3000}x y\u{a0}", "abc", "\u{2028}z"] {
        let t: String = trim_chars(&chars_of(s)).iter().collect();
        assert_eq!(t, s.trim());
    }
}

#[test]
fn video_extensions() {
    for e in ["mp4", "mkv", "avi", "mov", "flv", "wmv", "webm", "MP4", "MkV", "WEBM"] {
        assert!(is_video_extension(e), "{}", e);
    }
    for e in ["txt", "", "mp3", "mkv.bak", "m4v", "mp4 "] {
        assert!(!is_video_extension(e), "{}", e);
    }
}

#[test]
fn unsigned_numbers_like_std() {
    for s in [
        "", "0", "7", "+7", "-7", "+", "-", "007", "4294967295", "4294967296", "1_000", " 1",
        "1 ", "١٢", "12a", "99999999999999999999", "+0", "00000000000000000000042",
    ] {
        let ours = parse_unsigned_chars(&chars(s), u32::MAX as u64).map(|n| n as u32);
        assert_eq!(ours, s.parse::<u32>().ok(), "{:?}", s);
        let ours64 = parse_unsigned_chars(&chars(s), u64::MAX);
        assert_eq!(ours64, s.parse::<u64>().ok(), "{:?}", s);
    }
}
