use vstd::prelude::*;
use vstd::utf8::char_is_scalar;
use vstd::utf8::encode_scalar;
use vstd::utf8::encode_utf8;

verus! {

/// Number of bytes in the UTF-8 encoding of one character.
pub open spec fn char_len(c: char) -> nat {
    encode_scalar(c as u32).len()
}

/// Number of bytes in the UTF-8 encoding of the first `k` characters of `s`.
pub open spec fn bytes_thru(s: Seq<char>, k: int) -> nat {
    encode_utf8(s.take(k)).len()
}

/// `b` is a character boundary of `s`: the encoded length of some prefix.
pub open spec fn is_boundary(s: Seq<char>, b: int) -> bool {
    exists|k: int| 0 <= k <= s.len() && bytes_thru(s, k) == b
}

/// The number of characters of `s` whose encodings lie entirely before byte
/// offset `b`; on a boundary this is the character offset matching `b`.
pub open spec fn char_index_of(s: Seq<char>, b: int) -> int
    decreases s.len(),
{
    if s.len() == 0 || b < char_len(s[0]) {
        0
    } else {
        1 + char_index_of(s.drop_first(), b - char_len(s[0]))
    }
}

pub proof fn lemma_encode_concat(a: Seq<char>, b: Seq<char>)
    ensures
        encode_utf8(a + b) == encode_utf8(a) + encode_utf8(b),
    decreases a.len(),
{
    if a.len() == 0 {
        assert(a + b =~= b);
        assert(encode_utf8(a) + encode_utf8(b) =~= encode_utf8(b));
    } else {
        assert((a + b).drop_first() =~= a.drop_first() + b);
        lemma_encode_concat(a.drop_first(), b);
        assert((a + b)[0] == a[0]);
        assert(encode_utf8(a + b) =~= encode_utf8(a) + encode_utf8(b));
    }
}

pub proof fn lemma_encode_singleton(c: char)
    ensures
        encode_utf8(seq![c]) == encode_scalar(c as u32),
        encode_utf8(seq![c]).len() == char_len(c),
{
    assert(seq![c].drop_first() =~= Seq::<char>::empty());
    assert(encode_utf8(Seq::<char>::empty()) =~= Seq::<u8>::empty());
    assert(encode_utf8(seq![c]) =~= encode_scalar(c as u32));
}

pub proof fn lemma_char_len_bounds(c: char)
    ensures
        1 <= char_len(c) <= 4,
{
}

pub proof fn lemma_bytes_thru_zero(s: Seq<char>)
    ensures
        bytes_thru(s, 0) == 0,
{
    assert(s.take(0) =~= Seq::<char>::empty());
}

pub proof fn lemma_bytes_thru_step(s: Seq<char>, k: int)
    requires
        0 <= k < s.len(),
    ensures
        bytes_thru(s, k + 1) == bytes_thru(s, k) + char_len(s[k]),
{
    assert(s.take(k + 1) =~= s.take(k) + seq![s[k]]);
    lemma_encode_concat(s.take(k), seq![s[k]]);
    lemma_encode_singleton(s[k]);
}

pub proof fn lemma_bytes_thru_mono(s: Seq<char>, i: int, j: int)
    requires
        0 <= i <= j <= s.len(),
    ensures
        bytes_thru(s, i) <= bytes_thru(s, j),
        i < j ==> bytes_thru(s, i) < bytes_thru(s, j),
    decreases j - i,
{
    if i < j {
        lemma_bytes_thru_step(s, j - 1);
        lemma_char_len_bounds(s[j - 1]);
        lemma_bytes_thru_mono(s, i, j - 1);
    }
}

/// At least one byte encodes each character.
pub proof fn lemma_bytes_thru_lower(s: Seq<char>, k: int)
    requires
        0 <= k <= s.len(),
    ensures
        bytes_thru(s, k) >= k,
    decreases k,
{
    if k > 0 {
        lemma_bytes_thru_step(s, k - 1);
        lemma_char_len_bounds(s[k - 1]);
        lemma_bytes_thru_lower(s, k - 1);
    } else {
        lemma_bytes_thru_zero(s);
    }
}

/// On the boundary after `k` characters, `char_index_of` recovers `k`.
pub proof fn lemma_char_index_of_bytes_thru(s: Seq<char>, k: int)
    requires
        0 <= k <= s.len(),
    ensures
        char_index_of(s, bytes_thru(s, k) as int) == k,
    decreases s.len(),
{
    if k == 0 {
        lemma_bytes_thru_zero(s);
        if s.len() > 0 {
            lemma_char_len_bounds(s[0]);
        }
    } else {
        assert(s.take(k) =~= seq![s[0]] + s.drop_first().take(k - 1));
        lemma_encode_concat(seq![s[0]], s.drop_first().take(k - 1));
        lemma_encode_singleton(s[0]);
        assert(bytes_thru(s, k) == char_len(s[0]) + bytes_thru(s.drop_first(), k - 1));
        lemma_char_len_bounds(s[0]);
        lemma_char_index_of_bytes_thru(s.drop_first(), k - 1);
    }
}

/// A boundary byte offset converts to a character offset within the text,
/// and converting back yields the same byte offset.
pub proof fn lemma_boundary_index(s: Seq<char>, b: int)
    requires
        is_boundary(s, b),
    ensures
        0 <= char_index_of(s, b) <= s.len(),
        bytes_thru(s, char_index_of(s, b)) == b,
{
    let k = choose|k: int| 0 <= k <= s.len() && bytes_thru(s, k) == b;
    lemma_char_index_of_bytes_thru(s, k);
}

/// Byte-offset order carries over to character-offset order on boundaries.
pub proof fn lemma_char_index_mono(s: Seq<char>, b1: int, b2: int)
    requires
        is_boundary(s, b1),
        is_boundary(s, b2),
        b1 <= b2,
    ensures
        char_index_of(s, b1) <= char_index_of(s, b2),
{
    lemma_boundary_index(s, b1);
    lemma_boundary_index(s, b2);
    if char_index_of(s, b1) > char_index_of(s, b2) {
        lemma_bytes_thru_mono(s, char_index_of(s, b2), char_index_of(s, b1));
    }
}

/// Byte length of one character's UTF-8 encoding.
pub fn utf8_width(c: char) -> (n: usize)
    ensures
        n as nat == char_len(c),
        1 <= n <= 4,
{
    proof {
        char_is_scalar(c);
    }
    let u = c as u32;
    if u < 0x80 {
        1
    } else if u < 0x800 {
        2
    } else if u < 0x10000 {
        3
    } else {
        4
    }
}

/// Character offset matching the boundary byte offset `b` of `text`.
pub fn char_offset_of(text: &str, b: usize) -> (k: usize)
    requires
        is_boundary(text@, b as int),
    ensures
        k as int == char_index_of(text@, b as int),
        bytes_thru(text@, k as int) == b,
        k <= text@.len(),
{
    let ghost kk: int = choose|k: int| 0 <= k <= text@.len() && bytes_thru(text@, k) == b;
    let mut k: usize = 0;
    let mut acc: usize = 0;
    proof {
        lemma_bytes_thru_zero(text@);
        lemma_bytes_thru_mono(text@, 0, kk);
    }
    while acc < b
        invariant
            0 <= k as int <= kk <= text@.len(),
            acc as nat == bytes_thru(text@, k as int),
            acc <= b,
            bytes_thru(text@, kk) == b,
            is_boundary(text@, b as int),
        decreases b - acc,
    {
        proof {
            if k as int == kk {
                assert(false);
            }
            lemma_bytes_thru_step(text@, k as int);
            lemma_bytes_thru_mono(text@, k as int + 1, kk);
            lemma_char_len_bounds(text@[k as int]);
            lemma_bytes_thru_lower(text@, k as int);
        }
        let c = text.get_char(k);
        let w = utf8_width(c);
        acc = acc + w;
        k = k + 1;
    }
    proof {
        lemma_char_index_of_bytes_thru(text@, k as int);
    }
    k
}

} // verus!
