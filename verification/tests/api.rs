use flpc::EngineOptions;
use flpc::PatternCache;

#[test]
fn decode_known_bits() {
    assert_eq!(
        flpc::decode(0),
        EngineOptions { case_insensitive: false, multi_line: false, dot_all: false }
    );
    assert_eq!(
        flpc::decode(flpc::CASE_INSENSITIVE),
        EngineOptions { case_insensitive: true, multi_line: false, dot_all: false }
    );
    assert_eq!(
        flpc::decode(flpc::MULTILINE | flpc::DOTALL),
        EngineOptions { case_insensitive: false, multi_line: true, dot_all: true }
    );
}

#[test]
fn decode_ignores_unknown_bits() {
    assert_eq!(flpc::decode(0xffff_fff8), flpc::decode(0));
    assert_eq!(flpc::decode(8 | flpc::CASE_INSENSITIVE), flpc::decode(flpc::CASE_INSENSITIVE));
}

#[test]
fn escape_exact() {
    assert_eq!(flpc::escape("a.b+c"), "a\\.b\\+c");
    assert_eq!(flpc::escape("plain text_123"), "plain text_123");
    assert_eq!(
        flpc::escape("\\.+*?()|[]{}^$#&-~"),
        "\\\\\\.\\+\\*\\?\\(\\)\\|\\[\\]\\{\\}\\^\\$\\#\\&\\-\\~"
    );
}

#[test]
fn search_no_match_is_none() {
    let mut cache = PatternCache::new();
    let p = cache.compile("z", 0).unwrap();
    assert!(flpc::search(&p, "abc").is_none());
    assert!(flpc::search(&p, "").is_none());
}

#[test]
fn fmatch_requires_start() {
    let mut cache = PatternCache::new();
    let p = cache.compile("a", 0).unwrap();
    assert!(flpc::fmatch(&p, "ba").is_none());
    let m = flpc::fmatch(&p, "ab").unwrap();
    assert_eq!(m.span(0), Some((0, 1)));
}

#[test]
fn fullmatch_requires_whole() {
    let mut cache = PatternCache::new();
    let p = cache.compile("a+", 0).unwrap();
    assert!(flpc::fullmatch(&p, "aa").is_some());
    assert!(flpc::fullmatch(&p, "aab").is_none());
    assert!(flpc::fullmatch(&p, "baa").is_none());
}

#[test]
fn group_out_of_range_and_missing() {
    let mut cache = PatternCache::new();
    let p = cache.compile("(a)|(b)", 0).unwrap();
    let m = flpc::search(&p, "b").unwrap();
    assert_eq!(m.group(0), Some(String::from("b")));
    assert_eq!(m.group(1), None);
    assert_eq!(m.group(2), Some(String::from("b")));
    assert_eq!(m.group(3), None);
    assert_eq!(m.groups(), vec![None, Some(String::from("b"))]);
    assert_eq!(m.start(1), None);
    assert_eq!(m.end(2), Some(1));
}

#[test]
fn offsets_with_multibyte_prefix() {
    let mut cache = PatternCache::new();
    let p = cache.compile("b+", 0).unwrap();
    // two-byte characters before the match: byte and character offsets differ
    let m = flpc::search(&p, "\u{e9}\u{e9}bb").unwrap();
    assert_eq!(m.start(0), Some(2));
    assert_eq!(m.end(0), Some(4));
    assert_eq!(m.span(0), Some((2, 4)));
    assert_eq!(m.group(0), Some(String::from("bb")));
}

#[test]
fn split_cases() {
    let mut cache = PatternCache::new();
    let p = cache.compile("x", 0).unwrap();
    assert_eq!(
        flpc::split(&p, "axbxc"),
        vec![String::from("a"), String::from("b"), String::from("c")]
    );
    assert_eq!(
        flpc::split(&p, "xx"),
        vec![String::from(""), String::from(""), String::from("")]
    );
    assert_eq!(flpc::split(&p, "abc"), vec![String::from("abc")]);
    assert_eq!(flpc::split(&p, ""), vec![String::from("")]);
}

#[test]
fn findall_left_to_right() {
    let mut cache = PatternCache::new();
    let p = cache.compile("a+", 0).unwrap();
    assert_eq!(
        flpc::findall(&p, "baaab caa"),
        vec![String::from("aaa"), String::from("aa")]
    );
    assert_eq!(flpc::findall(&p, "xyz"), Vec::<String>::new());
}

#[test]
fn finditer_materializes_matches() {
    let mut cache = PatternCache::new();
    let p = cache.compile("(\\d)(\\d)", 0).unwrap();
    let ms = flpc::finditer(&p, "a12b34");
    assert_eq!(ms.len(), 2);
    assert_eq!(ms[0].span(0), Some((1, 3)));
    assert_eq!(ms[0].group(1), Some(String::from("1")));
    assert_eq!(ms[1].group(2), Some(String::from("4")));
    assert_eq!(ms[1].span(0), Some((4, 6)));
}

#[test]
fn sub_with_backreference() {
    let mut cache = PatternCache::new();
    let p = cache.compile("(\\d)", 0).unwrap();
    assert_eq!(flpc::sub(&p, "$1$1", "a1b"), "a11b");
    assert_eq!(flpc::sub(&p, "-", "abc"), "abc");
}

#[test]
fn subn_no_match() {
    let mut cache = PatternCache::new();
    let p = cache.compile("z", 0).unwrap();
    let (s, n) = flpc::subn(&p, "-", "abc");
    assert_eq!(s, "abc");
    assert_eq!(n, 0);
}

#[test]
fn case_insensitive_flag_changes_result() {
    let mut cache = PatternCache::new();
    let plain = cache.compile("ab", 0).unwrap();
    let ci = cache.compile("ab", flpc::CASE_INSENSITIVE).unwrap();
    assert!(flpc::search(&plain, "AB").is_none());
    assert!(flpc::search(&ci, "AB").is_some());
}

#[test]
fn multiline_flag_changes_result() {
    let mut cache = PatternCache::new();
    let plain = cache.compile("^b", 0).unwrap();
    let ml = cache.compile("^b", flpc::MULTILINE).unwrap();
    assert!(flpc::search(&plain, "a\nb").is_none());
    let m = flpc::search(&ml, "a\nb").unwrap();
    assert_eq!(m.span(0), Some((2, 3)));
}

#[test]
fn dotall_flag_changes_result() {
    let mut cache = PatternCache::new();
    let plain = cache.compile("a.b", 0).unwrap();
    let dot = cache.compile("a.b", flpc::DOTALL).unwrap();
    assert!(flpc::search(&plain, "a\nb").is_none());
    assert!(flpc::search(&dot, "a\nb").is_some());
}

#[test]
fn groups_empty_without_captures() {
    let mut cache = PatternCache::new();
    let p = cache.compile("ab", 0).unwrap();
    let m = flpc::search(&p, "xaby").unwrap();
    assert_eq!(m.groups(), Vec::<Option<String>>::new());
    assert_eq!(m.group(0), Some(String::from("ab")));
    assert_eq!(m.group(1), None);
}

#[test]
fn finditer_empty_when_no_match() {
    let mut cache = PatternCache::new();
    let p = cache.compile("z", 0).unwrap();
    assert!(flpc::finditer(&p, "abc").is_empty());
}
