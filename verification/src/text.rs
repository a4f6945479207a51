//! Character-level text utilities shared by the chain reader and the
//! material-name heuristics: Unicode white space, whitespace-separated
//! tokens, trimming, substring search, the grammar of real-number
//! literals accepted by the standard library's float parser (checked
//! here, not by calling the parser), and lower-casing through std.
use vstd::prelude::*;

verus! {

broadcast use vstd::string::group_string_axioms;

/// Unicode `White_Space` property (the set `char::is_whitespace` tests).
pub open spec fn is_white_space(c: char) -> bool {
    let u = c as u32;
    ||| 0x09 <= u <= 0x0D
    ||| u == 0x20
    ||| u == 0x85
    ||| u == 0xA0
    ||| u == 0x1680
    ||| 0x2000 <= u <= 0x200A
    ||| u == 0x2028
    ||| u == 0x2029
    ||| u == 0x202F
    ||| u == 0x205F
    ||| u == 0x3000
}

/// Length of the leading run of non-white-space characters of `s`.
pub open spec fn token_len(s: Seq<char>) -> nat
    decreases s.len(),
{
    if s.len() == 0 || is_white_space(s[0]) {
        0
    } else {
        1 + token_len(s.drop_first())
    }
}

/// The maximal runs of non-white-space characters of `s`, in order
/// (what `str::split_whitespace` yields).
pub open spec fn ws_tokens(s: Seq<char>) -> Seq<Seq<char>>
    decreases s.len(),
{
    if s.len() == 0 {
        seq![]
    } else if is_white_space(s[0]) {
        ws_tokens(s.drop_first())
    } else {
        let n = token_len(s);
        if n == 0 || n > s.len() {
            seq![]
        } else {
            seq![s.take(n as int)] + ws_tokens(s.skip(n as int))
        }
    }
}

/// Number of leading white-space characters of `s`.
pub open spec fn lead_ws(s: Seq<char>) -> nat
    decreases s.len(),
{
    if s.len() > 0 && is_white_space(s[0]) {
        1 + lead_ws(s.drop_first())
    } else {
        0
    }
}

/// Number of trailing white-space characters of `s`.
pub open spec fn trail_ws(s: Seq<char>) -> nat
    decreases s.len(),
{
    if s.len() > 0 && is_white_space(s.last()) {
        1 + trail_ws(s.drop_last())
    } else {
        0
    }
}

/// `s` without leading and trailing white space (what `str::trim` returns).
pub open spec fn trim_ws(s: Seq<char>) -> Seq<char> {
    let a = lead_ws(s);
    if a == s.len() {
        seq![]
    } else {
        s.subrange(a as int, s.len() - trail_ws(s))
    }
}

/// `needle` occurs in `hay` starting at position `i`.
pub open spec fn occurs_at(hay: Seq<char>, needle: Seq<char>, i: int) -> bool {
    0 <= i && i + needle.len() <= hay.len() && hay.subrange(i, i + needle.len()) == needle
}

/// `needle` occurs in `hay` as a contiguous run.
pub open spec fn seq_contains(hay: Seq<char>, needle: Seq<char>) -> bool {
    exists|i: int| #[trigger] occurs_at(hay, needle, i)
}

/// `needle` is one of the whitespace-separated words of `hay`.
pub open spec fn has_word(hay: Seq<char>, word: Seq<char>) -> bool {
    ws_tokens(hay).contains(word)
}

/// ASCII lower-casing of one character; other characters are unchanged.
pub open spec fn ascii_lower(c: char) -> char {
    if 'A' <= c <= 'Z' {
        (((c as u32) + 32) as u8) as char
    } else {
        c
    }
}

pub open spec fn is_digit(c: char) -> bool {
    '0' <= c <= '9'
}

/// Length of the leading run of decimal digits of `s`.
pub open spec fn lead_digits(s: Seq<char>) -> nat
    decreases s.len(),
{
    if s.len() > 0 && is_digit(s[0]) {
        1 + lead_digits(s.drop_first())
    } else {
        0
    }
}

/// `'e' Sign? Digit+` (already lower-cased).
pub open spec fn is_exponent(s: Seq<char>) -> bool {
    &&& s.len() >= 2
    &&& s[0] == 'e'
    &&& if s[1] == '+' || s[1] == '-' {
        s.len() >= 3 && lead_digits(s.skip(2)) == s.len() - 2
    } else {
        lead_digits(s.skip(1)) == s.len() - 1
    }
}

/// `(Digit+ | Digit+ '.' Digit* | Digit* '.' Digit+) Exp?`: the
/// mantissa is the leading digits, an optional point and the digits
/// after it; whatever follows must be an exponent.
pub open spec fn is_decimal(u: Seq<char>) -> bool {
    let d1 = lead_digits(u);
    let r = u.skip(d1 as int);
    if r.len() > 0 && r[0] == '.' {
        let d2 = lead_digits(r.skip(1));
        let m = d1 + 1 + d2;
        d1 + d2 >= 1 && (m == u.len() || is_exponent(u.skip(m as int)))
    } else {
        d1 >= 1 && (d1 == u.len() || is_exponent(u.skip(d1 as int)))
    }
}

/// The real-number grammar of the standard library's float parser:
/// after ASCII lower-casing, `Sign? ('inf' | 'infinity' | 'nan' | Decimal)`.
pub open spec fn is_float_literal(s: Seq<char>) -> bool {
    let t = s.map_values(|c: char| ascii_lower(c));
    let u = if t.len() > 0 && (t[0] == '+' || t[0] == '-') {
        t.skip(1)
    } else {
        t
    };
    ||| u =~= seq!['i', 'n', 'f']
    ||| u =~= seq!['i', 'n', 'f', 'i', 'n', 'i', 't', 'y']
    ||| u =~= seq!['n', 'a', 'n']
    ||| is_decimal(u)
}

/// `s.trim()` is a real-number literal.
pub open spec fn is_real_number_text(s: Seq<char>) -> bool {
    is_float_literal(trim_ws(s))
}

/// What `str::to_lowercase` returns for a string (full Unicode case mapping).
pub uninterp spec fn unicode_lowercase(s: Seq<char>) -> Seq<char>;

/// Every character of `s` is ASCII.
pub open spec fn is_ascii_text(s: Seq<char>) -> bool {
    forall|i: int| 0 <= i < s.len() ==> (#[trigger] s[i] as u32) < 128
}

/// Calls `str::to_lowercase`. The contract names its result, and
/// states the one case the Unicode case mapping makes simple: on ASCII
/// text it lower-cases `A`–`Z` and leaves every other character.
#[verifier::external_body]
pub(crate) fn to_lowercase(s: &str) -> (lower: String)
    ensures
        lower@ == unicode_lowercase(s@),
        is_ascii_text(s@) ==> lower@ == s@.map_values(|c: char| ascii_lower(c)),
{
    s.to_lowercase()
}


/// Calls `String::push`: appends one character.
#[verifier::external_body]
pub(crate) fn push_char(s: &mut String, c: char)
    ensures
        final(s)@ == old(s)@.push(c),
{
    s.push(c);
}

/// The character of decimal digit `d`.
pub open spec fn digit_char(d: nat) -> char {
    ((48 + d) as u8) as char
}

/// Decimal digits of `n`, without leading zeros.
pub open spec fn decimal_text(n: nat) -> Seq<char>
    decreases n,
{
    if n < 10 {
        seq![digit_char(n)]
    } else {
        decimal_text(n / 10).push(digit_char(n % 10))
    }
}

/// Append the decimal digits of `n` to `s`.
pub fn push_usize_decimal(s: &mut String, n: usize)
    ensures
        final(s)@ == old(s)@ + decimal_text(n as nat),
    decreases n,
{
    if n >= 10 {
        push_usize_decimal(s, n / 10);
    }
    let d = (n % 10) as u8;
    push_char(s, (48 + d) as char);
    assert(s@ =~= old(s)@ + decimal_text(n as nat));
}

/// Unicode white-space test.
pub fn white_space(c: char) -> (b: bool)
    ensures
        b == is_white_space(c),
{
    let u = c as u32;
    (0x09 <= u && u <= 0x0D) || u == 0x20 || u == 0x85 || u == 0xA0 || u == 0x1680 || (0x2000
        <= u && u <= 0x200A) || u == 0x2028 || u == 0x2029 || u == 0x202F || u == 0x205F || u
        == 0x3000
}

/// The characters of `s`, in order.
pub fn chars_of(s: &str) -> (v: Vec<char>)
    ensures
        v@ == s@,
{
    let n = s.unicode_len();
    let mut v: Vec<char> = Vec::new();
    let mut i: usize = 0;
    while i < n
        invariant
            n == s@.len(),
            i <= n,
            v@ == s@.take(i as int),
        decreases n - i,
    {
        let c = s.get_char(i);
        v.push(c);
        i += 1;
        assert(v@ =~= s@.take(i as int));
    }
    assert(v@ =~= s@);
    v
}

proof fn lemma_token_len_bound(s: Seq<char>)
    ensures
        token_len(s) <= s.len(),
        forall|k: int| 0 <= k < token_len(s) ==> !is_white_space(#[trigger] s[k]),
        token_len(s) < s.len() ==> is_white_space(s[token_len(s) as int]),
    decreases s.len(),
{
    if s.len() > 0 && !is_white_space(s[0]) {
        lemma_token_len_bound(s.drop_first());
        assert forall|k: int| 0 <= k < token_len(s) implies !is_white_space(#[trigger] s[k]) by {
            if k > 0 {
                assert(s[k] == s.drop_first()[k - 1]);
            }
        }
    }
}

proof fn lemma_token_len_exact(s: Seq<char>, m: int)
    requires
        0 <= m <= s.len(),
        forall|k: int| 0 <= k < m ==> !is_white_space(#[trigger] s[k]),
        m == s.len() || is_white_space(s[m]),
    ensures
        token_len(s) == m,
    decreases m,
{
    if m > 0 {
        assert forall|k: int| 0 <= k < m - 1 implies !is_white_space(#[trigger] s.drop_first()[k]) by {
            assert(s.drop_first()[k] == s[k + 1]);
        }
        if m < s.len() {
            assert(s.drop_first()[m - 1] == s[m]);
        }
        lemma_token_len_exact(s.drop_first(), m - 1);
    }
}

/// Start and end positions of the whitespace-separated tokens of `s`.
pub fn token_ranges(s: &Vec<char>) -> (r: Vec<(usize, usize)>)
    ensures
        r@.len() == ws_tokens(s@).len(),
        forall|t: int|
            0 <= t < r@.len() ==> {
                &&& (#[trigger] r@[t]).0 < r@[t].1 <= s@.len()
                &&& s@.subrange(r@[t].0 as int, r@[t].1 as int) == ws_tokens(s@)[t]
            },
{
    let n = s.len();
    let mut r: Vec<(usize, usize)> = Vec::new();
    let mut i: usize = 0;
    assert(s@.skip(0) =~= s@);
    while i < n
        invariant
            n == s@.len(),
            i <= n,
            r@.len() + ws_tokens(s@.skip(i as int)).len() == ws_tokens(s@).len(),
            forall|t: int|
                0 <= t < r@.len() ==> {
                    &&& (#[trigger] r@[t]).0 < r@[t].1 <= i
                    &&& s@.subrange(r@[t].0 as int, r@[t].1 as int) == ws_tokens(s@)[t]
                },
            forall|t: int|
                0 <= t < ws_tokens(s@.skip(i as int)).len() ==> ws_tokens(s@)[r@.len() + t]
                    == #[trigger] ws_tokens(s@.skip(i as int))[t],
        decreases n - i,
    {
        let ghost rest = s@.skip(i as int);
        if white_space(s[i]) {
            assert(rest.drop_first() =~= s@.skip(i + 1));
            i += 1;
        } else {
            let mut j = i + 1;
            while j < n && !white_space(s[j])
                invariant
                    n == s@.len(),
                    i < j <= n,
                    forall|k: int| i <= k < j ==> !is_white_space(#[trigger] s@[k]),
                decreases n - j,
            {
                j += 1;
            }
            proof {
                assert forall|k: int| 0 <= k < j - i implies !is_white_space(#[trigger] rest[k]) by {
                    assert(rest[k] == s@[i + k]);
                }
                if j < n {
                    assert(rest[j - i] == s@[j as int]);
                }
                lemma_token_len_exact(rest, j - i);
                assert(rest.take(j - i) =~= s@.subrange(i as int, j as int));
                assert(rest.skip(j - i) =~= s@.skip(j as int));
                let tail = ws_tokens(s@.skip(j as int));
                assert(ws_tokens(rest) == seq![rest.take(j - i)] + tail);
                assert forall|t: int| 0 <= t < tail.len() implies ws_tokens(s@)[r@.len() + 1 + t]
                    == #[trigger] tail[t] by {
                    assert(ws_tokens(rest)[t + 1] == tail[t]);
                }
                assert(ws_tokens(s@)[r@.len() as int] == ws_tokens(rest)[0]);
            }
            r.push((i, j));
            i = j;
        }
    }
    proof {
        assert(s@.skip(n as int) =~= Seq::<char>::empty());
    }
    r
}

/// Positions `(a, b)` such that `s[a..b]` is `s` without leading and
/// trailing white space.
pub fn trim_range(s: &Vec<char>) -> (r: (usize, usize))
    ensures
        r.0 <= r.1 <= s@.len(),
        s@.subrange(r.0 as int, r.1 as int) == trim_ws(s@),
{
    let n = s.len();
    let mut a: usize = 0;
    assert(s@.skip(0) =~= s@);
    while a < n && white_space(s[a])
        invariant
            a <= n == s@.len(),
            lead_ws(s@) == a + lead_ws(s@.skip(a as int)),
        decreases n - a,
    {
        assert(s@.skip(a as int).drop_first() =~= s@.skip(a + 1));
        a += 1;
    }
    proof {
        if a == n {
            assert(s@.skip(a as int) =~= Seq::<char>::empty());
        } else {
            assert(s@.skip(a as int)[0] == s@[a as int]);
        }
    }
    if a == n {
        return (n, n);
    }
    let mut b: usize = n;
    assert(s@.take(n as int) =~= s@);
    while white_space(s[b - 1])
        invariant
            a < n == s@.len(),
            a < b <= n,
            a == lead_ws(s@),
            trail_ws(s@) == (n - b) + trail_ws(s@.take(b as int)),
            !is_white_space(s@[a as int]),
        decreases b,
    {
        assert(s@.take(b as int).drop_last() =~= s@.take(b - 1));
        b -= 1;
    }
    proof {
        assert(s@.take(b as int).last() == s@[b - 1]);
    }
    (a, b)
}

/// Whether `needle` occurs in `hay`.
pub fn contains(hay: &Vec<char>, needle: &str) -> (b: bool)
    ensures
        b == seq_contains(hay@, needle@),
{
    let nd = chars_of(needle);
    let m = nd.len();
    let n = hay.len();
    if m > n {
        return false;
    }
    let mut i: usize = 0;
    while i <= n - m
        invariant
            m == nd@.len() == needle@.len(),
            n == hay@.len(),
            m <= n,
            i <= n - m + 1,
            nd@ == needle@,
            forall|p: int| 0 <= p < i ==> !#[trigger] occurs_at(hay@, needle@, p),
        decreases n + 1 - i,
    {
        let mut k: usize = 0;
        while k < m && hay[i + k] == nd[k]
            invariant
                m == nd@.len(),
                n == hay@.len(),
                i + m <= n,
                k <= m,
                forall|q: int| 0 <= q < k ==> hay@[i + q] == nd@[q],
            decreases m - k,
        {
            k += 1;
        }
        if k == m {
            assert(hay@.subrange(i as int, i + m) =~= needle@);
            assert(occurs_at(hay@, needle@, i as int));
            return true;
        }
        assert(hay@.subrange(i as int, i + m)[k as int] != needle@[k as int]);
        i += 1;
    }
    assert forall|p: int| !#[trigger] occurs_at(hay@, needle@, p) by {}
    false
}

fn lower_char(c: char) -> (l: char)
    ensures
        l == ascii_lower(c),
{
    if 'A' <= c && c <= 'Z' {
        let u = (c as u32) + 32;
        let b = u as u8;
        b as char
    } else {
        c
    }
}

/// `start + lead_digits(u[start..])`.
fn skip_digits(u: &Vec<char>, start: usize) -> (e: usize)
    requires
        start <= u@.len(),
    ensures
        e == start + lead_digits(u@.skip(start as int)),
        e <= u@.len(),
{
    let mut e = start;
    while e < u.len() && '0' <= u[e] && u[e] <= '9'
        invariant
            start <= e <= u@.len(),
            lead_digits(u@.skip(start as int)) == (e - start) + lead_digits(u@.skip(e as int)),
        decreases u@.len() - e,
    {
        assert(u@.skip(e as int).drop_first() =~= u@.skip(e + 1));
        e += 1;
    }
    proof {
        if e < u@.len() {
            assert(u@.skip(e as int)[0] == u@[e as int]);
        }
    }
    e
}

fn exponent_at(u: &Vec<char>, m: usize) -> (b: bool)
    requires
        m < u@.len(),
    ensures
        b == is_exponent(u@.skip(m as int)),
{
    let n = u.len();
    let ghost s = u@.skip(m as int);
    if n - m < 2 || u[m] != 'e' {
        return false;
    }
    if u[m + 1] == '+' || u[m + 1] == '-' {
        if n - m < 3 {
            return false;
        }
        let e = skip_digits(u, m + 2);
        assert(s.skip(2) =~= u@.skip(m + 2));
        e == n
    } else {
        let e = skip_digits(u, m + 1);
        assert(s.skip(1) =~= u@.skip(m + 1));
        e == n
    }
}

fn decimal_from(u: &Vec<char>, st: usize) -> (b: bool)
    requires
        st <= u@.len(),
    ensures
        b == is_decimal(u@.skip(st as int)),
{
    let n = u.len();
    let ghost w = u@.skip(st as int);
    let d1 = skip_digits(u, st);
    assert(w.skip((d1 - st) as int) =~= u@.skip(d1 as int));
    if d1 < n && u[d1] == '.' {
        let d2 = skip_digits(u, d1 + 1);
        assert(w.skip((d1 - st) as int).skip(1) =~= u@.skip(d1 + 1));
        assert(w.skip((d2 - st) as int) =~= u@.skip(d2 as int));
        (d2 - st) >= 2 && (d2 == n || exponent_at(u, d2))
    } else {
        assert(w.skip((d1 - st) as int) =~= u@.skip(d1 as int));
        d1 > st && (d1 == n || exponent_at(u, d1))
    }
}

fn is_word_at(u: &Vec<char>, st: usize, word: &str) -> (b: bool)
    requires
        st <= u@.len(),
    ensures
        b == (u@.skip(st as int) =~= word@),
{
    let w = chars_of(word);
    if u.len() - st != w.len() {
        assert(u@.skip(st as int).len() != word@.len());
        return false;
    }
    let mut k: usize = 0;
    while k < w.len()
        invariant
            w@ == word@,
            u@.len() == st + w@.len(),
            u@.len() <= usize::MAX,
            st <= u@.len(),
            k <= w@.len(),
            forall|q: int| 0 <= q < k ==> u@[st + q] == w@[q],
        decreases w@.len() - k,
    {
        if u[st + k] != w[k] {
            assert(u@.skip(st as int)[k as int] != word@[k as int]);
            return false;
        }
        k += 1;
    }
    assert(u@.skip(st as int) =~= word@);
    true
}

/// Whether `s` is a real-number literal in the standard library's grammar.
pub fn float_literal(s: &Vec<char>) -> (b: bool)
    ensures
        b == is_float_literal(s@),
{
    let mut t: Vec<char> = Vec::new();
    let mut i: usize = 0;
    while i < s.len()
        invariant
            i <= s@.len(),
            t@ == s@.take(i as int).map_values(|c: char| ascii_lower(c)),
        decreases s@.len() - i,
    {
        t.push(lower_char(s[i]));
        i += 1;
        assert(t@ =~= s@.take(i as int).map_values(|c: char| ascii_lower(c)));
    }
    assert(s@.take(s@.len() as int) =~= s@);
    let st: usize = if t.len() > 0 && (t[0] == '+' || t[0] == '-') {
        1
    } else {
        0
    };
    assert(t@.skip(0) =~= t@);
    proof {
        reveal_strlit("inf");
        reveal_strlit("infinity");
        reveal_strlit("nan");
    }
    let r = is_word_at(&t, st, "inf") || is_word_at(&t, st, "infinity") || is_word_at(&t, st, "nan")
        || decimal_from(&t, st);
    proof {
        assert("inf"@ =~= seq!['i', 'n', 'f']);
        assert("infinity"@ =~= seq!['i', 'n', 'f', 'i', 'n', 'i', 't', 'y']);
        assert("nan"@ =~= seq!['n', 'a', 'n']);
    }
    r
}

/// Whether `trim(s)` is a real-number literal.
pub fn is_real_number(s: &str) -> (b: bool)
    ensures
        b == is_real_number_text(s@),
{
    let v = chars_of(s);
    let (a, z) = trim_range(&v);
    let mut t: Vec<char> = Vec::new();
    let mut i = a;
    while i < z
        invariant
            a <= i <= z <= v@.len(),
            t@ == v@.subrange(a as int, i as int),
        decreases z - i,
    {
        t.push(v[i]);
        i += 1;
        assert(t@ =~= v@.subrange(a as int, i as int));
    }
    float_literal(&t)
}

/// The whitespace-separated tokens of `s`, as owned strings.
pub fn split_whitespace(s: &str) -> (toks: Vec<String>)
    ensures
        toks@.map_values(|t: String| t@) == ws_tokens(s@),
{
    let v = chars_of(s);
    let ranges = token_ranges(&v);
    let mut toks: Vec<String> = Vec::new();
    let mut t: usize = 0;
    while t < ranges.len()
        invariant
            v@ == s@,
            t <= ranges@.len() == ws_tokens(s@).len(),
            toks@.len() == t,
            forall|q: int| 0 <= q < t ==> (#[trigger] toks@[q])@ == ws_tokens(s@)[q],
            forall|q: int|
                0 <= q < ranges@.len() ==> {
                    &&& (#[trigger] ranges@[q]).0 < ranges@[q].1 <= s@.len()
                    &&& s@.subrange(ranges@[q].0 as int, ranges@[q].1 as int) == ws_tokens(s@)[q]
                },
        decreases ranges@.len() - t,
    {
        let (a, b) = ranges[t];
        let piece = s.substring_char(a, b);
        toks.push(String::from_str(piece));
        t += 1;
    }
    assert(toks@.map_values(|x: String| x@) =~= ws_tokens(s@));
    toks
}

} // verus!
