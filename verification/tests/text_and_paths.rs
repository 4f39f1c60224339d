use photo_manager::paths::{portable_path, to_absolute, to_relative};
use photo_manager::text::{chars_of, dec_u64, parse_i64, parse_u64, trim_chars};

fn chars(s: &str) -> Vec<char> {
    s.chars().collect()
}

#[test]
fn parse_u64_accepts_plus_and_rejects_signs_and_overflow() {
    assert_eq!(parse_u64(&chars("42")), Some(42));
    assert_eq!(parse_u64(&chars("+7")), Some(7));
    assert_eq!(parse_u64(&chars("-7")), None);
    assert_eq!(parse_u64(&chars("")), None);
    assert_eq!(parse_u64(&chars("+")), None);
    assert_eq!(parse_u64(&chars("18446744073709551615")), Some(u64::MAX));
    assert_eq!(parse_u64(&chars("18446744073709551616")), None);
    assert_eq!(parse_u64(&chars("12a")), None);
}

#[test]
fn parse_i64_matches_std() {
    for s in ["0", "-0", "+12", "-12", "9223372036854775807", "-9223372036854775808",
              "9223372036854775808", "-9223372036854775809", "-", "", " 1", "1 ", "0x10"] {
        assert_eq!(parse_i64(&chars(s)), s.parse::<i64>().ok(), "input {:?}", s);
    }
}

#[test]
fn trim_matches_std_trim() {
    for s in ["  a b  ", "\t\n x\u{3000}", "", "   ", "\u{a0}y\u{2028}", "z"] {
        let t: String = trim_chars(&chars(s)).into_iter().collect();
        assert_eq!(t, s.trim());
    }
}

#[test]
fn decimal_formatting() {
    let d: String = dec_u64(0).into_iter().collect();
    assert_eq!(d, "0");
    let d: String = dec_u64(1000).into_iter().collect();
    assert_eq!(d, "1000");
    let d: String = dec_u64(u64::MAX).into_iter().collect();
    assert_eq!(d, u64::MAX.to_string());
    assert_eq!(chars_of("héllo"), vec!['h', 'é', 'l', 'l', 'o']);
}

#[test]
fn relative_paths_are_portable_and_root_relative() {
    assert_eq!(to_relative("D:\\Photos", "D:\\Photos\\2012\\a.jpg"), "2012/a.jpg");
    assert_eq!(to_relative("/lib", "/lib/x/y.png"), "x/y.png");
    assert_eq!(to_relative("/lib/", "/lib/x/y.png"), "x/y.png");
    assert_eq!(to_relative("/lib", "/lib"), "");
    assert_eq!(to_relative("/lib", "/library/y.png"), "/library/y.png");
    assert_eq!(to_relative("", "a\\b"), "a/b");
    assert_eq!(portable_path("thumbs\\ab.jpg"), "thumbs/ab.jpg");
}

#[test]
fn absolute_paths_join_root_and_stored_path() {
    assert_eq!(to_absolute("/lib", "x/y.png"), "/lib/x/y.png");
    assert_eq!(to_absolute("/lib/", "x/y.png"), "/lib/x/y.png");
    assert_eq!(to_absolute("D:\\Photos\\", "2012/a.jpg"), "D:\\Photos\\2012/a.jpg");
    assert_eq!(to_absolute("", "x/y.png"), "x/y.png");
}

#[test]
fn stored_path_round_trips_through_absolute() {
    for (root, rel) in [("/lib", "x/y.png"), ("/lib/", "a/b/c.jpg"), ("/media/photos", ""), ("/r", "only.gif"), ("", "x/y.png")] {
        assert_eq!(to_relative(root, &to_absolute(root, rel)), rel);
    }
}
