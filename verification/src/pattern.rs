//! AOB (array-of-bytes) signature parsing and scanning.
//!
//! A signature such as `"48 8D 0D ? ? ? ?"` is a whitespace-separated list of
//! tokens; a token holding `?` is a wildcard, any other token is a hex byte.
//! Scanning finds the first offset of a haystack where every concrete byte of
//! the pattern matches.

use vstd::prelude::*;
use crate::text::{chars_of, is_whitespace, is_ws};

verus! {

// ---------------------------------------------------------------------------
// Tokenizing (`str::split_whitespace`)
// ---------------------------------------------------------------------------

/// Length of the run of non-whitespace chars at the start of `s`.
pub open spec fn word_len(s: Seq<char>) -> nat
    decreases s.len(),
{
    if s.len() == 0 || is_ws(s[0]) {
        0
    } else {
        1 + word_len(s.drop_first())
    }
}

pub proof fn lemma_word_len_bound(s: Seq<char>)
    ensures
        word_len(s) <= s.len(),
        s.len() > 0 && !is_ws(s[0]) ==> word_len(s) >= 1,
    decreases s.len(),
{
    if s.len() > 0 && !is_ws(s[0]) {
        lemma_word_len_bound(s.drop_first());
    }
}

/// The maximal runs of non-whitespace chars of `s`, in order
/// (what `str::split_whitespace` yields).
pub open spec fn words(s: Seq<char>) -> Seq<Seq<char>>
    decreases s.len(),
{
    if s.len() == 0 {
        seq![]
    } else if is_ws(s[0]) {
        words(s.drop_first())
    } else {
        proof {
            lemma_word_len_bound(s);
        }
        let n = word_len(s) as int;
        seq![s.take(n)] + words(s.skip(n))
    }
}

/// If `t[0..k)` holds no whitespace and `t[k]` is whitespace or the end, the
/// leading word of `t` is `k` long.
proof fn lemma_word_len_exact(t: Seq<char>, k: int)
    requires
        0 <= k <= t.len(),
        forall|x: int| 0 <= x < k ==> !is_ws(#[trigger] t[x]),
        k == t.len() || is_ws(t[k]),
    ensures
        word_len(t) == k,
    decreases k,
{
    if k > 0 {
        let d = t.drop_first();
        assert forall|x: int| 0 <= x < k - 1 implies !is_ws(#[trigger] d[x]) by {
            assert(d[x] == t[x + 1]);
        }
        if k < t.len() {
            assert(d[k - 1] == t[k]);
        }
        lemma_word_len_exact(d, k - 1);
    }
}

// ---------------------------------------------------------------------------
// Tokens (`u8::from_str_radix(tok, 16)`)
// ---------------------------------------------------------------------------

/// Value of a hex digit, if `c` is one.
pub open spec fn hex_digit(c: char) -> Option<nat> {
    if '0' <= c <= '9' {
        Some((c as u32 - '0' as u32) as nat)
    } else if 'a' <= c <= 'f' {
        Some((c as u32 - 'a' as u32 + 10) as nat)
    } else if 'A' <= c <= 'F' {
        Some((c as u32 - 'A' as u32 + 10) as nat)
    } else {
        None
    }
}

/// Law: the hex digits are `0`..`9`, `a`..`f` and `A`..`F` (either case),
/// worth 0..9, 10..15 and 10..15.
pub proof fn law_hex_digits_either_case(c: char)
    ensures
        (hex_digit(c) is Some) <==> (48 <= c as u32 <= 57 || 97 <= c as u32 <= 102 || 65 <= c as u32
            <= 70),
        48 <= c as u32 <= 57 ==> hex_digit(c) == Some((c as u32 - 48) as nat),
        97 <= c as u32 <= 102 ==> hex_digit(c) == Some((c as u32 - 87) as nat),
        65 <= c as u32 <= 70 ==> hex_digit(c) == Some((c as u32 - 55) as nat),
{
}

/// Law: a token's digits read most significant first: the value of digits
/// followed by one more digit is sixteen times their value plus that digit's.
pub proof fn law_hex_value_appends_digit(t: Seq<char>, c: char, d: nat)
    requires
        hex_digit(c) == Some(d),
    ensures
        hex_value(t.push(c)) == hex_value(t) * 16 + d,
{
    assert(t.push(c).drop_last() =~= t);
}

pub open spec fn all_hex(t: Seq<char>) -> bool {
    forall|i: int| 0 <= i < t.len() ==> (#[trigger] hex_digit(t[i])) is Some
}

/// Base-16 value of a string of hex digits (most significant first).
pub open spec fn hex_value(t: Seq<char>) -> nat
    decreases t.len(),
{
    if t.len() == 0 {
        0
    } else {
        hex_value(t.drop_last()) * 16 + match hex_digit(t.last()) {
            Some(d) => d,
            None => 0,
        }
    }
}

/// `u8::from_str_radix(t, 16)`: an optional leading `+`, then one or more hex
/// digits whose value fits in a byte.
pub open spec fn radix16_byte(t: Seq<char>) -> Option<u8> {
    let digits = if t.len() > 0 && t[0] == '+' {
        t.drop_first()
    } else {
        t
    };
    if digits.len() > 0 && all_hex(digits) && hex_value(digits) <= 255 {
        Some(hex_value(digits) as u8)
    } else {
        None
    }
}

/// The pattern entry of one signature token: a token holding `?` is a
/// wildcard, and so is a token that is not a hex byte.
pub open spec fn token_entry(t: Seq<char>) -> Option<u8> {
    if t.contains('?') {
        None
    } else {
        radix16_byte(t)
    }
}

/// The pattern that a signature denotes.
pub open spec fn signature_pattern(sig: Seq<char>) -> Seq<Option<u8>> {
    words(sig).map_values(|t: Seq<char>| token_entry(t))
}

fn hex_digit_exec(c: char) -> (r: Option<u8>)
    ensures
        match hex_digit(c) {
            Some(d) => r == Some(d as u8),
            None => r is None,
        },
{
    if '0' <= c && c <= '9' {
        Some(((c as u32) - 48) as u8)
    } else if 'a' <= c && c <= 'f' {
        Some(((c as u32) - 97 + 10) as u8)
    } else if 'A' <= c && c <= 'F' {
        Some(((c as u32) - 65 + 10) as u8)
    } else {
        None
    }
}

/// The pattern entry of the token `cs[from..to)`.
fn token_entry_exec(cs: &Vec<char>, from: usize, to: usize) -> (r: Option<u8>)
    requires
        from <= to <= cs@.len(),
    ensures
        r == token_entry(cs@.subrange(from as int, to as int)),
{
    let ghost t = cs@.subrange(from as int, to as int);
    let mut k = from;
    while k < to
        invariant
            from <= k <= to <= cs@.len(),
            t == cs@.subrange(from as int, to as int),
            forall|x: int| from <= x < k ==> cs@[x] != '?',
        decreases to - k,
    {
        if cs[k] == '?' {
            assert(t[k - from] == '?');
            return None;
        }
        k += 1;
    }
    assert(!t.contains('?')) by {
        assert forall|x: int| 0 <= x < t.len() implies t[x] != '?' by {
            assert(t[x] == cs@[from + x]);
        }
    }
    let start = if from < to && cs[from] == '+' {
        from + 1
    } else {
        from
    };
    let ghost digits = cs@.subrange(start as int, to as int);
    assert(digits == (if t.len() > 0 && t[0] == '+' {
        t.drop_first()
    } else {
        t
    }));
    if start == to {
        assert(digits.len() == 0);
        assert(token_entry(t) == radix16_byte(t));
        return None;
    }
    let mut acc: u32 = 0;
    let mut overflow = false;
    let mut i = start;
    while i < to
        invariant
            start <= i <= to <= cs@.len(),
            digits == cs@.subrange(start as int, to as int),
            t == cs@.subrange(from as int, to as int),
            !t.contains('?'),
            digits == (if t.len() > 0 && t[0] == '+' {
                t.drop_first()
            } else {
                t
            }),
            all_hex(cs@.subrange(start as int, i as int)),
            !overflow ==> acc == hex_value(cs@.subrange(start as int, i as int)) && acc <= 255,
            overflow ==> hex_value(cs@.subrange(start as int, i as int)) > 255,
        decreases to - i,
    {
        let ghost prefix = cs@.subrange(start as int, i as int);
        let ghost next = cs@.subrange(start as int, i + 1);
        assert(next.drop_last() =~= prefix);
        assert(next.last() == cs@[i as int]);
        match hex_digit_exec(cs[i]) {
            None => {
                assert(!all_hex(digits)) by {
                    assert(hex_digit(digits[i - start]) is None);
                }
                return None;
            },
            Some(d) => {
                if !overflow {
                    if acc > 15 {
                        overflow = true;
                    }
                    acc = acc * 16 + d as u32;
                    if acc > 255 {
                        overflow = true;
                    }
                }
                assert forall|x: int| 0 <= x < next.len() implies (#[trigger] hex_digit(
                    next[x],
                )) is Some by {
                    if x < prefix.len() {
                        assert(next[x] == prefix[x]);
                    }
                }
            },
        }
        i += 1;
    }
    assert(cs@.subrange(start as int, i as int) =~= digits);
    if overflow {
        None
    } else {
        Some(acc as u8)
    }
}

/// Parse a signature string like `"48 8D 0D ? ? ? ?"` into a pattern: one
/// entry per whitespace-separated token, where `?` (a wildcard) becomes `None`.
/// A token that is not a hex byte is treated as a wildcard too.
pub fn parse_signature(sig: &str) -> (r: Vec<Option<u8>>)
    ensures
        r@ == signature_pattern(sig@),
{
    let cs = chars_of(sig);
    let mut out: Vec<Option<u8>> = Vec::new();
    let mut i: usize = 0;
    assert(cs@.skip(0) =~= cs@);
    while i < cs.len()
        invariant
            i <= cs@.len(),
            cs@ == sig@,
            signature_pattern(sig@) == out@ + signature_pattern(cs@.skip(i as int)),
        decreases cs@.len() - i,
    {
        let ghost rest = cs@.skip(i as int);
        if is_whitespace(cs[i]) {
            assert(rest.drop_first() =~= cs@.skip(i + 1));
            i += 1;
        } else {
            let mut j = i;
            while j < cs.len() && !is_whitespace(cs[j])
                invariant
                    i <= j <= cs@.len(),
                    forall|x: int| i <= x < j ==> !is_ws(#[trigger] cs@[x]),
                decreases cs@.len() - j,
            {
                j += 1;
            }
            proof {
                assert forall|x: int| 0 <= x < j - i implies !is_ws(#[trigger] rest[x]) by {
                    assert(rest[x] == cs@[i + x]);
                }
                if j < cs.len() {
                    assert(rest[j - i] == cs@[j as int]);
                }
                lemma_word_len_exact(rest, j - i);
                assert(rest.take(j - i) =~= cs@.subrange(i as int, j as int));
                assert(rest.skip(j - i) =~= cs@.skip(j as int));
            }
            let e = token_entry_exec(&cs, i, j);
            let ghost old_out = out@;
            out.push(e);
            assert(signature_pattern(rest) =~= seq![e] + signature_pattern(cs@.skip(j as int)));
            assert(out@ =~= old_out + seq![e]);
            i = j;
        }
    }
    assert(cs@.skip(i as int) =~= Seq::<char>::empty());
    assert(out@ =~= out@ + signature_pattern(cs@.skip(i as int)));
    out
}

// ---------------------------------------------------------------------------
// Scanning
// ---------------------------------------------------------------------------

/// `pat` matches `hay` at offset `i`: the pattern fits there and every
/// concrete entry equals the byte under it.
pub open spec fn matches_at(hay: Seq<u8>, pat: Seq<Option<u8>>, i: int) -> bool {
    &&& 0 <= i
    &&& i + pat.len() <= hay.len()
    &&& forall|j: int|
        0 <= j < pat.len() ==> (#[trigger] pat[j] matches Some(b) ==> hay[i + j] == b)
}

/// What a scan answers: the least offset where a non-empty pattern matches,
/// `None` when the pattern is empty or matches nowhere.
pub open spec fn is_first_match(hay: Seq<u8>, pat: Seq<Option<u8>>, r: Option<usize>) -> bool {
    match r {
        Some(i) => {
            &&& pat.len() > 0
            &&& matches_at(hay, pat, i as int)
            &&& forall|k: int| 0 <= k < i ==> !matches_at(hay, pat, k)
        },
        None => pat.len() == 0 || forall|k: int| !matches_at(hay, pat, k),
    }
}

/// The answer of a scan of `hay` for `pat` (there is exactly one answer; see
/// `lemma_first_match_unique`).
pub open spec fn first_match_of(hay: Seq<u8>, pat: Seq<Option<u8>>) -> Option<usize> {
    choose|r: Option<usize>| is_first_match(hay, pat, r)
}

/// A scan has one answer, and `first_match_of` is it.
pub proof fn lemma_first_match_unique(hay: Seq<u8>, pat: Seq<Option<u8>>, r: Option<usize>)
    requires
        is_first_match(hay, pat, r),
    ensures
        first_match_of(hay, pat) == r,
{
    let c = first_match_of(hay, pat);
    assert(is_first_match(hay, pat, c));
    match (c, r) {
        (Some(i), Some(j)) => {
            if i < j {
                assert(!matches_at(hay, pat, i as int));
            } else if j < i {
                assert(!matches_at(hay, pat, j as int));
            }
        },
        (Some(i), None) => {
            assert(matches_at(hay, pat, i as int));
        },
        (None, Some(j)) => {
            assert(matches_at(hay, pat, j as int));
        },
        (None, None) => {},
    }
}

/// Does `pattern` match `haystack` at `i`? (`i + pattern.len() <= haystack.len()`.)
fn matches_at_exec(haystack: &[u8], pattern: &[Option<u8>], i: usize) -> (r: bool)
    requires
        i + pattern@.len() <= haystack@.len(),
    ensures
        r == matches_at(haystack@, pattern@, i as int),
{
    let mut j: usize = 0;
    while j < pattern.len()
        invariant
            i + pattern@.len() <= haystack@.len(),
            j <= pattern@.len(),
            forall|t: int|
                0 <= t < j ==> (#[trigger] pattern@[t] matches Some(b) ==> haystack@[i + t] == b),
        decreases pattern@.len() - j,
    {
        match pattern[j] {
            None => {},
            Some(b) => {
                assert(i + j < haystack.len());
                if haystack[i + j] != b {
                    assert(!matches_at(haystack@, pattern@, i as int)) by {
                        assert(pattern@[j as int] matches Some(bb) && haystack@[i + j] != bb);
                    }
                    return false;
                }
            },
        }
        j += 1;
    }
    true
}

/// Find the first occurrence of `pattern` inside `haystack`.
///
/// Returns the index of the match, or `None`. `None` entries in `pattern` match
/// any byte; an empty pattern matches nowhere.
pub fn find_pattern_in(haystack: &[u8], pattern: &[Option<u8>]) -> (r: Option<usize>)
    ensures
        is_first_match(haystack@, pattern@, r),
        r == first_match_of(haystack@, pattern@),
{
    let r = find_first(haystack, pattern);
    proof {
        lemma_first_match_unique(haystack@, pattern@, r);
    }
    r
}

fn find_first(haystack: &[u8], pattern: &[Option<u8>]) -> (r: Option<usize>)
    ensures
        is_first_match(haystack@, pattern@, r),
{
    if pattern.len() == 0 || haystack.len() < pattern.len() {
        if pattern.len() > 0 {
            assert forall|k: int| !matches_at(haystack@, pattern@, k) by {}
        }
        return None;
    }
    let first = pattern[0];
    let last_start = haystack.len() - pattern.len();
    let mut i: usize = 0;
    loop
        invariant
            pattern@.len() > 0,
            first == pattern@[0],
            last_start == haystack@.len() - pattern@.len(),
            i <= last_start,
            forall|k: int| 0 <= k < i ==> !matches_at(haystack@, pattern@, k),
        decreases last_start - i,
    {
        // Fast path: with a concrete first byte, jump straight to the next
        // offset holding it.
        let ghost i0 = i;
        if let Some(fb) = first {
            while i < last_start && haystack[i] != fb
                invariant
                    pattern@.len() > 0,
                    first == pattern@[0],
                    first == Some(fb),
                    i0 <= i,
                    last_start == haystack@.len() - pattern@.len(),
                    i <= last_start,
                    forall|k: int| 0 <= k < i ==> !matches_at(haystack@, pattern@, k),
                decreases last_start - i,
            {
                assert(!matches_at(haystack@, pattern@, i as int)) by {
                    assert(pattern@[0] matches Some(b) && haystack@[i + 0] != b);
                }
                i += 1;
            }
            if haystack[i] != fb {
                assert(i == last_start);
                assert(!matches_at(haystack@, pattern@, i as int)) by {
                    assert(pattern@[0] matches Some(b) && haystack@[i + 0] != b);
                }
                assert forall|k: int| !matches_at(haystack@, pattern@, k) by {
                    if 0 <= k && k + pattern@.len() <= haystack@.len() {
                        assert(k <= i);
                    }
                }
                return None;
            }
        }
        assert(i0 <= i);
        if matches_at_exec(haystack, pattern, i) {
            return Some(i);
        }
        if i == last_start {
            assert forall|k: int| !matches_at(haystack@, pattern@, k) by {
                if 0 <= k && k + pattern@.len() <= haystack@.len() {
                    assert(k <= i);
                }
            }
            return None;
        }
        i += 1;
    }
}

/// Law: the pattern has one entry per token, and every token holding `?`
/// is a wildcard.
pub proof fn law_wildcard_tokens(sig: Seq<char>)
    ensures
        signature_pattern(sig).len() == words(sig).len(),
        forall|i: int|
            0 <= i < words(sig).len() && (#[trigger] words(sig)[i]).contains('?')
                ==> signature_pattern(sig)[i] is None,
{
}

/// Law: wildcards match any byte, so a non-empty pattern of wildcards alone
/// matches at the very start of any haystack it fits in.
pub proof fn law_wildcards_match_any_byte(hay: Seq<u8>, pat: Seq<Option<u8>>)
    requires
        0 < pat.len() <= hay.len(),
        forall|j: int| 0 <= j < pat.len() ==> (#[trigger] pat[j]) is None,
    ensures
        is_first_match(hay, pat, Some(0usize)),
{
    assert(matches_at(hay, pat, 0));
}

/// Law: a pattern without wildcards matches exactly where its bytes occur.
pub proof fn law_concrete_pattern_is_substring(hay: Seq<u8>, bytes: Seq<u8>, i: int)
    ensures
        matches_at(hay, bytes.map_values(|b: u8| Some(b)), i) <==> (0 <= i && i + bytes.len()
            <= hay.len() && hay.subrange(i, i + bytes.len()) == bytes),
{
    let pat = bytes.map_values(|b: u8| Some(b));
    if matches_at(hay, pat, i) {
        assert forall|j: int| 0 <= j < bytes.len() implies hay.subrange(i, i + bytes.len())[j]
            == bytes[j] by {
            assert(pat[j] == Some(bytes[j]));
        }
        assert(hay.subrange(i, i + bytes.len()) =~= bytes);
    }
    if 0 <= i && i + bytes.len() <= hay.len() && hay.subrange(i, i + bytes.len()) == bytes {
        assert forall|j: int| 0 <= j < pat.len() implies (#[trigger] pat[j] matches Some(b)
            ==> hay[i + j] == b) by {
            assert(hay.subrange(i, i + bytes.len())[j] == hay[i + j]);
        }
    }
}


// ---------------------------------------------------------------------------
// Signatures written from bytes
// ---------------------------------------------------------------------------

/// The upper-case hex digit of `d` (below 16).
pub open spec fn hex_char(d: nat) -> char {
    if d < 10 {
        ((48 + d) as u32) as char
    } else {
        ((55 + d) as u32) as char
    }
}

/// The two-digit upper-case hex token of a byte (`format!("{:02X}", b)`).
pub open spec fn byte_token(b: u8) -> Seq<char> {
    seq![hex_char(b as nat / 16), hex_char(b as nat % 16)]
}

/// The signature that lists `bytes` as hex tokens separated by single spaces.
pub open spec fn signature_of(bytes: Seq<u8>) -> Seq<char>
    decreases bytes.len(),
{
    if bytes.len() == 0 {
        seq![]
    } else if bytes.len() == 1 {
        byte_token(bytes[0])
    } else {
        byte_token(bytes[0]) + seq![' '] + signature_of(bytes.drop_first())
    }
}

proof fn lemma_hex_char(d: nat)
    requires
        d < 16,
    ensures
        hex_digit(hex_char(d)) == Some(d),
        !is_ws(hex_char(d)),
        hex_char(d) != '?',
        hex_char(d) != '+',
{
    if d < 10 {
        assert((((48 + d) as u32) as char) as u32 == 48 + d);
    } else {
        assert((((55 + d) as u32) as char) as u32 == 55 + d);
    }
}

proof fn lemma_byte_token(b: u8)
    ensures
        token_entry(byte_token(b)) == Some(b),
        byte_token(b).len() == 2,
        !is_ws(byte_token(b)[0]),
        !is_ws(byte_token(b)[1]),
{
    let t = byte_token(b);
    let hi = b as nat / 16;
    let lo = b as nat % 16;
    lemma_hex_char(hi);
    lemma_hex_char(lo);
    assert(!t.contains('?')) by {
        assert forall|i: int| 0 <= i < t.len() implies t[i] != '?' by {}
    }
    assert(all_hex(t));
    reveal_with_fuel(hex_value, 3);
    assert(t.drop_last() =~= seq![t[0]]);
    assert(seq![t[0]].drop_last() =~= Seq::<char>::empty());
    assert(hex_value(t) == hi * 16 + lo);
}

/// Law: writing bytes as a signature (two-digit hex tokens separated by
/// spaces) and parsing it back gives every byte, none of them a wildcard.
pub proof fn law_signature_round_trip(bytes: Seq<u8>)
    ensures
        signature_pattern(signature_of(bytes)) == bytes.map_values(|b: u8| Some(b)),
    decreases bytes.len(),
{
    if bytes.len() == 0 {
        assert(signature_pattern(signature_of(bytes)) =~= bytes.map_values(|b: u8| Some(b)));
    } else {
        let t = byte_token(bytes[0]);
        lemma_byte_token(bytes[0]);
        let s = signature_of(bytes);
        if bytes.len() == 1 {
            assert(s == t);
            lemma_word_len_exact(s, 2);
            assert(s.take(2) =~= t);
            assert(s.skip(2) =~= Seq::<char>::empty());
            assert(!is_ws(s[0]));
            assert(words(s.skip(2)) == Seq::<Seq<char>>::empty());
            assert(words(s) =~= seq![t]);
        } else {
            let rest = signature_of(bytes.drop_first());
            assert(s == t + seq![' '] + rest);
            assert forall|x: int| 0 <= x < 2 implies !is_ws(#[trigger] s[x]) by {
                assert(s[x] == t[x]);
            }
            assert(s[2] == ' ');
            lemma_word_len_exact(s, 2);
            assert(s.take(2) =~= t);
            let after = s.skip(2);
            assert(after.drop_first() =~= rest);
            assert(is_ws(after[0]));
            assert(words(after) == words(rest));
            assert(words(s) == seq![t] + words(rest));
            law_signature_round_trip(bytes.drop_first());
            assert(signature_pattern(s) =~= seq![token_entry(t)] + signature_pattern(rest));
        }
        assert(signature_pattern(s) =~= bytes.map_values(|b: u8| Some(b)));
    }
}

} // verus!
