use flpc::PatternCache;
use flpc::CASE_INSENSITIVE;

#[test]
fn plus_match_span() {
    let mut cache = PatternCache::new();
    let p = cache.compile("a+", 0).unwrap();
    let m = flpc::search(&p, "baaab").unwrap();
    assert_eq!(m.span(0), Some((1, 4)));
}

#[test]
fn two_groups() {
    let mut cache = PatternCache::new();
    let p = cache.compile("(\\d+)-(\\d+)", 0).unwrap();
    let m = flpc::search(&p, "x12-34y").unwrap();
    assert_eq!(m.group(1), Some(String::from("12")));
    assert_eq!(m.group(2), Some(String::from("34")));
}

#[test]
fn case_insensitive_multibyte_span() {
    let mut cache = PatternCache::new();
    let p = cache.compile("\u{f6}", CASE_INSENSITIVE).unwrap();
    let m = flpc::search(&p, "\u{d6}L").unwrap();
    assert_eq!(m.span(0), Some((0, 1)));
}

#[test]
fn subn_counts_replacements() {
    let mut cache = PatternCache::new();
    let p = cache.compile("x", 0).unwrap();
    let (s, n) = flpc::subn(&p, "y", "xxx");
    assert_eq!(s, "yyy");
    assert_eq!(n, 3);
}

#[test]
fn bad_pattern_reports_and_is_retried() {
    let mut cache = PatternCache::new();
    let e = match cache.compile("[", 0) {
        Err(e) => e,
        Ok(_) => panic!("expected a compile error"),
    };
    assert!(!e.message().is_empty());
    let e2 = match cache.compile("[", 0) {
        Err(e) => e,
        Ok(_) => panic!("expected a compile error"),
    };
    assert!(!e2.message().is_empty());
    // the failure did not poison the cache
    let p = cache.compile("a", 0).unwrap();
    assert!(flpc::search(&p, "a").is_some());
}

#[test]
fn purge_empty_cache() {
    let mut cache = PatternCache::new();
    cache.purge();
}
