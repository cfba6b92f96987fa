use seer::paths::{extension, file_name, file_stem, parent, trim_separators};
use seer::text::{
    decimal_chars, from_chars, parse_signed, parse_unsigned, push_padded_decimal,
    push_signed_decimal, to_chars,
};

fn chars(text: &str) -> Vec<char> {
    text.chars().collect()
}

fn text(value: Option<Vec<char>>) -> Option<String> {
    value.map(|c| c.into_iter().collect())
}

fn parts(path: &str) -> (Option<String>, Option<String>, Option<String>, Option<String>) {
    let c = chars(path);
    (text(file_name(&c)), text(file_stem(&c)), text(extension(&c)), text(parent(&c)))
}

fn some(value: &str) -> Option<String> {
    Some(value.to_string())
}

#[test]
fn test_path_parts() {
    assert_eq!(parts("/path/file.mp4"), (some("file.mp4"), some("file"), some("mp4"), some("/path")));
    assert_eq!(parts("file.tar.gz"), (some("file.tar.gz"), some("file.tar"), some("gz"), some("")));
    assert_eq!(parts("/a/b/"), (some("b"), some("b"), None, some("/a")));
    assert_eq!(parts("/a//b//"), (some("b"), some("b"), None, some("/a")));
    assert_eq!(parts("/file"), (some("file"), some("file"), None, some("/")));
    assert_eq!(parts("/.bashrc"), (some(".bashrc"), some(".bashrc"), None, some("/")));
    assert_eq!(parts("a/.b.c"), (some(".b.c"), some(".b"), some("c"), some("a")));
    assert_eq!(parts("a/b."), (some("b."), some("b"), some(""), some("a")));
    assert_eq!(parts("/"), (None, None, None, None));
    assert_eq!(parts(""), (None, None, None, None));
    assert_eq!(parts("///"), (None, None, None, None));
    assert_eq!(parts("a/.."), (None, None, None, some("a")));
    assert_eq!(parts(".."), (None, None, None, some("")));
    assert_eq!(parts("."), (None, None, None, some("")));
    assert_eq!(parts("a.b/c"), (some("c"), some("c"), None, some("a.b")));
}

#[test]
fn test_trim_separators() {
    assert_eq!(trim_separators(&chars("/a/b//")), chars("/a/b"));
    assert_eq!(trim_separators(&chars("//")), chars(""));
    assert_eq!(trim_separators(&chars("a")), chars("a"));
}

#[test]
fn test_text_round_trip() {
    for sample in ["", "plain", "\u{e4}\u{1F600}\u{0}z"] {
        assert_eq!(to_chars(sample), chars(sample));
        assert_eq!(from_chars(&chars(sample)), sample);
    }
}

#[test]
fn test_decimal_numbers() {
    assert_eq!(decimal_chars(0), chars("0"));
    assert_eq!(decimal_chars(10), chars("10"));
    assert_eq!(decimal_chars(u64::MAX), chars("18446744073709551615"));
    let mut out = chars("x");
    push_padded_decimal(&mut out, 42, 5);
    push_padded_decimal(&mut out, 123456, 3);
    push_padded_decimal(&mut out, 0, 0);
    assert_eq!(out, chars("x000421234560"));
    let mut out = Vec::new();
    push_signed_decimal(&mut out, i64::MIN);
    push_signed_decimal(&mut out, 0);
    push_signed_decimal(&mut out, -7);
    assert_eq!(out, chars("-92233720368547758080-7"));
    assert_eq!(parse_unsigned(&chars("18446744073709551615")), Some(u64::MAX));
    assert_eq!(parse_unsigned(&chars("18446744073709551616")), None);
    assert_eq!(parse_unsigned(&chars("+0012")), Some(12));
    assert_eq!(parse_unsigned(&chars("+")), None);
    assert_eq!(parse_unsigned(&chars("")), None);
    assert_eq!(parse_unsigned(&chars("-1")), None);
    assert_eq!(parse_unsigned(&chars("1_000")), None);
    assert_eq!(parse_unsigned(&chars("\u{661}")), None);
    assert_eq!(parse_signed(&chars("-9223372036854775808")), Some(i64::MIN));
    assert_eq!(parse_signed(&chars("-9223372036854775809")), None);
    assert_eq!(parse_signed(&chars("9223372036854775807")), Some(i64::MAX));
    assert_eq!(parse_signed(&chars("9223372036854775808")), None);
    assert_eq!(parse_signed(&chars("+5")), Some(5));
    assert_eq!(parse_signed(&chars("-")), None);
    assert_eq!(parse_signed(&chars("-+5")), None);
    assert_eq!(parse_signed(&chars("-0")), Some(0));
}

#[test]
fn test_components_of_one_dot_at_the_end_do_not_count() {
    let name = |path: &str| file_name(&path.chars().collect()).map(|n| n.into_iter().collect::<String>());
    let dir = |path: &str| parent(&path.chars().collect()).map(|n| n.into_iter().collect::<String>());
    let std_name = |path: &str| std::path::Path::new(path).file_name().map(|n| n.to_string_lossy().to_string());
    let std_dir = |path: &str| std::path::Path::new(path).parent().map(|n| n.to_string_lossy().to_string());
    assert_eq!(name("a/b/."), Some("b".to_string()));
    assert_eq!(name("a/b/./"), Some("b".to_string()));
    assert_eq!(name("a/b/././/."), Some("b".to_string()));
    assert_eq!(name("clip.mkv/."), Some("clip.mkv".to_string()));
    assert_eq!(name("."), None);
    assert_eq!(name("./"), None);
    assert_eq!(name("/."), None);
    assert_eq!(name("a/.."), None);
    assert_eq!(name("a/../."), None);
    assert_eq!(name("a/.b"), Some(".b".to_string()));
    assert_eq!(name("a/b."), Some("b.".to_string()));
    assert_eq!(dir("a/b/."), Some("a".to_string()));
    assert_eq!(dir("a/./b"), Some("a".to_string()));
    assert_eq!(dir("./b"), Some(".".to_string()));
    assert_eq!(dir("/./b"), Some("/".to_string()));
    assert_eq!(dir("."), Some(String::new()));
    for path in [
        "a/b/.", "a/b/./", "a/b/././/.", "clip.mkv/.", ".", "./", "/.", "a/..", "a/../.", "a/.b",
        "a/b.", "a/./b", "./b", "/./b", "", "/", "//", "a", "/a", "a/", "/a/b/c.d", "a//b", "..",
        "a/b/..", ".hidden", "/x/.hidden/.",
    ] {
        assert_eq!(name(path), std_name(path), "file name of {:?}", path);
        assert_eq!(dir(path), std_dir(path), "parent of {:?}", path);
    }
}
