use flpc::PatternCache;

#[test]
fn compile_twice_same_behaviour() {
    let mut cache = PatternCache::new();
    let p1 = cache.compile("(a+)b", 0).unwrap();
    let p2 = cache.compile("(a+)b", 0).unwrap();
    let text = "xaab aaab";
    let m1 = flpc::search(&p1, text).unwrap();
    let m2 = flpc::search(&p2, text).unwrap();
    assert_eq!(m1.span(0), m2.span(0));
    assert_eq!(m1.group(1), m2.group(1));
    assert_eq!(flpc::findall(&p1, text), flpc::findall(&p2, text));
    assert_eq!(flpc::split(&p1, text), flpc::split(&p2, text));
    assert_eq!(flpc::sub(&p1, "-", text), flpc::sub(&p2, "-", text));
}

#[test]
fn fullmatch_span_counts_characters() {
    let mut cache = PatternCache::new();
    let p = cache.compile("\u{3b1}\u{3b2}c+", 0).unwrap();
    let text = "\u{3b1}\u{3b2}ccc";
    let m = flpc::fullmatch(&p, text).unwrap();
    assert_eq!(m.span(0), Some((0, text.chars().count())));
}

#[test]
fn escape_round_trip() {
    let text = "1+1=2 (really?) [yes].";
    let mut cache = PatternCache::new();
    let p = cache.compile(&flpc::escape(text), 0).unwrap();
    assert_eq!(flpc::findall(&p, text), vec![String::from(text)]);
}

#[test]
fn split_join_reconstructs_text() {
    let mut cache = PatternCache::new();
    let p = cache.compile(", *", 0).unwrap();
    let text = "a, b,c,  d\u{e9}e";
    let pieces = flpc::split(&p, text);
    let seps = flpc::findall(&p, text);
    assert_eq!(pieces.len(), seps.len() + 1);
    let mut joined = String::new();
    for i in 0..seps.len() {
        joined.push_str(&pieces[i]);
        joined.push_str(&seps[i]);
    }
    joined.push_str(&pieces[seps.len()]);
    assert_eq!(joined, text);
}

#[test]
fn purge_keeps_handles_usable() {
    let mut cache = PatternCache::new();
    let p = cache.compile("b+", 0).unwrap();
    let before = flpc::findall(&p, "abba");
    cache.purge();
    let after = flpc::findall(&p, "abba");
    assert_eq!(before, after);
    assert_eq!(after, vec![String::from("bb")]);
    // and the purged cache still compiles afresh
    let q = cache.compile("b+", 0).unwrap();
    assert_eq!(flpc::findall(&q, "abba"), after);
}
