//! Character-level helpers over `str` and `String`.

use vstd::prelude::*;

verus! {

/// Appends one character to a `String` (`String::push`).
#[verifier::external_body]
pub(crate) fn push_char(s: &mut String, c: char)
    ensures
        final(s)@ == old(s)@.push(c),
{
    s.push(c);
}

/// What `String::from_utf8_lossy` makes of `bytes`: their UTF-8 decoding,
/// with U+FFFD in place of each invalid sequence.
pub uninterp spec fn utf8_lossy(bytes: Seq<u8>) -> Seq<char>;

/// `String::from_utf8_lossy`. Its result is named by `utf8_lossy`; the one
/// fact stated of it is the documented one, that valid UTF-8 decodes as
/// itself. How invalid sequences are replaced is left unsaid.
#[verifier::external_body]
pub(crate) fn from_utf8_lossy(bytes: &[u8]) -> (s: String)
    ensures
        s@ == utf8_lossy(bytes@),
        vstd::utf8::valid_utf8(bytes@) ==> s@ == vstd::utf8::decode_utf8(bytes@),
{
    String::from_utf8_lossy(bytes).into_owned()
}

/// The characters of `s`, in order.
pub fn chars_of(s: &str) -> (v: Vec<char>)
    ensures
        v@ == s@,
{
    let mut v: Vec<char> = Vec::new();
    for c in it: s.chars()
        invariant
            it.seq() == s@,
            v@ == s@.take(it.index() as int),
    {
        v.push(c);
        assert(v@ =~= s@.take(it.index() + 1));
    }
    assert(v@ =~= s@);
    v
}

/// Whether `a` and `b` hold the same text.
pub fn same_text(a: &str, b: &str) -> (r: bool)
    ensures
        r == (a@ == b@),
{
    let x = a.as_bytes();
    let y = b.as_bytes();
    proof {
        vstd::utf8::encode_utf8_decode_utf8(a@);
        vstd::utf8::encode_utf8_decode_utf8(b@);
    }
    if x.len() != y.len() {
        return false;
    }
    let mut i: usize = 0;
    while i < x.len()
        invariant
            x@ == vstd::utf8::encode_utf8(a@),
            y@ == vstd::utf8::encode_utf8(b@),
            x@.len() == y@.len(),
            i <= x@.len(),
            forall|j: int| 0 <= j < i ==> x@[j] == y@[j],
        decreases x@.len() - i,
    {
        if x[i] != y[i] {
            return false;
        }
        i = i + 1;
    }
    assert(x@ =~= y@);
    true
}

/// A `String` holding `v[from..to]`.
pub fn string_of(v: &Vec<char>, from: usize, to: usize) -> (s: String)
    requires
        from <= to <= v@.len(),
    ensures
        s@ == v@.subrange(from as int, to as int),
{
    let mut s = String::new();
    let mut i = from;
    while i < to
        invariant
            from <= i <= to <= v@.len(),
            s@ == v@.subrange(from as int, i as int),
        decreases to - i,
    {
        push_char(&mut s, v[i]);
        i = i + 1;
        assert(s@ =~= v@.subrange(from as int, i as int));
    }
    s
}

/// Unicode's White_Space property, which `char::is_whitespace` tests.
pub open spec fn is_whitespace(c: char) -> bool {
    ||| ('\u{9}' <= c && c <= '\u{d}')
    ||| c == ' '
    ||| c == '\u{85}'
    ||| c == '\u{a0}'
    ||| c == '\u{1680}'
    ||| ('\u{2000}' <= c && c <= '\u{200a}')
    ||| c == '\u{2028}'
    ||| c == '\u{2029}'
    ||| c == '\u{202f}'
    ||| c == '\u{205f}'
    ||| c == '\u{3000}'
}

fn whitespace(c: char) -> (r: bool)
    ensures
        r == is_whitespace(c),
{
    ('\u{9}' <= c && c <= '\u{d}') || c == ' ' || c == '\u{85}' || c == '\u{a0}' || c
        == '\u{1680}' || ('\u{2000}' <= c && c <= '\u{200a}') || c == '\u{2028}' || c
        == '\u{2029}' || c == '\u{202f}' || c == '\u{205f}' || c == '\u{3000}'
}

/// `s` without its leading whitespace.
pub open spec fn trim_start(s: Seq<char>) -> Seq<char>
    decreases s.len(),
{
    if s.len() > 0 && is_whitespace(s[0]) {
        trim_start(s.skip(1))
    } else {
        s
    }
}

/// `s` without its trailing whitespace.
pub open spec fn trim_end(s: Seq<char>) -> Seq<char>
    decreases s.len(),
{
    if s.len() > 0 && is_whitespace(s.last()) {
        trim_end(s.drop_last())
    } else {
        s
    }
}

/// `s` without whitespace at either end (`str::trim`).
pub open spec fn trimmed(s: Seq<char>) -> Seq<char> {
    trim_end(trim_start(s))
}

/// `s` without its trailing colons (`str::trim_end_matches(':')`).
pub open spec fn without_trailing_colons(s: Seq<char>) -> Seq<char>
    decreases s.len(),
{
    if s.len() > 0 && s.last() == ':' {
        without_trailing_colons(s.drop_last())
    } else {
        s
    }
}

/// Where `v[from..to]` starts once its leading whitespace is skipped.
fn skip_whitespace(v: &Vec<char>, from: usize, to: usize) -> (i: usize)
    requires
        from <= to <= v@.len(),
    ensures
        from <= i <= to,
        trim_start(v@.subrange(from as int, to as int)) == v@.subrange(i as int, to as int),
{
    let mut i = from;
    while i < to && whitespace(v[i])
        invariant
            from <= i <= to <= v@.len(),
            trim_start(v@.subrange(from as int, to as int)) == trim_start(
                v@.subrange(i as int, to as int),
            ),
        decreases to - i,
    {
        assert(v@.subrange(i as int, to as int).skip(1) =~= v@.subrange(i + 1, to as int));
        i = i + 1;
    }
    i
}

fn droppable(c: char, colons: bool) -> (r: bool)
    ensures
        r == if colons {
            c == ':'
        } else {
            is_whitespace(c)
        },
{
    if colons {
        c == ':'
    } else {
        whitespace(c)
    }
}

/// Where `v[from..to]` ends once its trailing whitespace, or with `colons`
/// its trailing colons, are dropped.
fn drop_trailing(v: &Vec<char>, from: usize, to: usize, colons: bool) -> (j: usize)
    requires
        from <= to <= v@.len(),
    ensures
        from <= j <= to,
        !colons ==> trim_end(v@.subrange(from as int, to as int)) == v@.subrange(
            from as int,
            j as int,
        ),
        colons ==> without_trailing_colons(v@.subrange(from as int, to as int)) == v@.subrange(
            from as int,
            j as int,
        ),
{
    let mut j = to;
    while j > from && droppable(v[j - 1], colons)
        invariant
            from <= j <= to <= v@.len(),
            !colons ==> trim_end(v@.subrange(from as int, to as int)) == trim_end(
                v@.subrange(from as int, j as int),
            ),
            colons ==> without_trailing_colons(v@.subrange(from as int, to as int))
                == without_trailing_colons(v@.subrange(from as int, j as int)),
        decreases j - from,
    {
        assert(v@.subrange(from as int, j as int).drop_last() =~= v@.subrange(
            from as int,
            j - 1,
        ));
        j = j - 1;
    }
    j
}

/// The characters of `s` without whitespace at either end.
pub fn trim(s: &str) -> (t: String)
    ensures
        t@ == trimmed(s@),
{
    let v = chars_of(s);
    let n = v.len();
    assert(v@.subrange(0, n as int) =~= v@);
    let i = skip_whitespace(&v, 0, n);
    let j = drop_trailing(&v, i, n, false);
    string_of(&v, i, j)
}

/// `s` trimmed, then stripped of trailing colons: how a prompt reads as a
/// placeholder.
pub fn trim_prompt(s: &str) -> (t: String)
    ensures
        t@ == without_trailing_colons(trimmed(s@)),
{
    let v = chars_of(s);
    let n = v.len();
    assert(v@.subrange(0, n as int) =~= v@);
    let i = skip_whitespace(&v, 0, n);
    let j = drop_trailing(&v, i, n, false);
    let k = drop_trailing(&v, i, j, true);
    string_of(&v, i, k)
}

pub open spec fn is_digit(c: char) -> bool {
    '0' <= c && c <= '9'
}

/// The number that the decimal digits `s` spell.
pub open spec fn digits_value(s: Seq<char>) -> int
    decreases s.len(),
{
    if s.len() == 0 {
        0
    } else {
        10 * digits_value(s.drop_last()) + (s.last() as int - '0' as int)
    }
}

/// `s` without one leading `+`.
pub open spec fn unsigned_part(s: Seq<char>) -> Seq<char> {
    if s.len() > 0 && s[0] == '+' {
        s.skip(1)
    } else {
        s
    }
}

pub open spec fn all_digits(s: Seq<char>) -> bool {
    forall|i: int| 0 <= i < s.len() ==> is_digit(#[trigger] s[i])
}

/// What `str::parse::<u64>` makes of `s`: an optional `+`, then one or
/// more decimal digits whose value fits in 64 bits.
pub open spec fn parsed_u64(s: Seq<char>) -> Option<u64> {
    let d = unsigned_part(s);
    if d.len() > 0 && all_digits(d) && digits_value(d) <= u64::MAX {
        Some(digits_value(d) as u64)
    } else {
        None
    }
}

proof fn lemma_digits_value_grows(s: Seq<char>, k: int)
    requires
        0 <= k <= s.len(),
        all_digits(s),
    ensures
        0 <= digits_value(s.take(k)) <= digits_value(s),
    decreases s.len(),
{
    if s.len() > 0 {
        if k == s.len() {
            assert(s.take(k) =~= s);
            lemma_digits_value_grows(s.drop_last(), k - 1);
            assert(s.drop_last().take(k - 1) =~= s.drop_last());
        } else {
            lemma_digits_value_grows(s.drop_last(), k);
            assert(s.drop_last().take(k) =~= s.take(k));
            lemma_digits_value_grows(s.drop_last(), s.len() - 1);
            assert(s.drop_last().take(s.len() - 1) =~= s.drop_last());
        }
    } else {
        assert(s.take(k) =~= s);
    }
}

/// Parses `s` as `str::parse::<u64>` does.
pub fn parse_u64(s: &str) -> (r: Option<u64>)
    ensures
        r == parsed_u64(s@),
{
    let v = chars_of(s);
    let n = v.len();
    let start: usize = if n > 0 && v[0] == '+' {
        1
    } else {
        0
    };
    let ghost d = v@.subrange(start as int, n as int);
    assert(d =~= unsigned_part(s@));
    if start == n {
        return None;
    }
    let mut value: u64 = 0;
    let mut i = start;
    while i < n
        invariant
            start <= i <= n == v@.len(),
            d == v@.subrange(start as int, n as int),
            d == unsigned_part(s@),
            d.len() > 0,
            forall|j: int| 0 <= j < i - start ==> is_digit(#[trigger] d[j]),
            value as int == digits_value(d.take(i - start)),
        decreases n - i,
    {
        let c = v[i];
        if !('0' <= c && c <= '9') {
            assert(d[i - start] == c);
            assert(!all_digits(d));
            return None;
        }
        let digit = (c as u32 - '0' as u32) as u64;
        assert(d.take(i + 1 - start).drop_last() =~= d.take(i - start));
        assert(d.take(i + 1 - start).last() == c);
        if value > (u64::MAX - digit) / 10 {
            assert(10 * value + digit > u64::MAX);
            proof {
                if all_digits(d) {
                    lemma_digits_value_grows(d, i + 1 - start);
                }
            }
            return None;
        }
        value = value * 10 + digit;
        i = i + 1;
    }
    assert(d.take(n - start) =~= d);
    Some(value)
}

/// Whether `w` occurs in `s` (`str::contains`).
pub open spec fn text_contains(s: Seq<char>, w: Seq<char>) -> bool {
    exists|i: int| 0 <= i <= s.len() - w.len() && #[trigger] s.subrange(i, i + w.len()) == w
}

fn occurs_at(v: &Vec<char>, p: &Vec<char>, i: usize) -> (r: bool)
    requires
        i + p@.len() <= v@.len(),
    ensures
        r == (v@.subrange(i as int, i + p@.len()) == p@),
{
    let n = v.len();
    let mut k: usize = 0;
    while k < p.len()
        invariant
            n == v@.len(),
            i + p@.len() <= v@.len(),
            k <= p@.len(),
            forall|j: int| 0 <= j < k ==> v@[i + j] == p@[j],
        decreases p@.len() - k,
    {
        if v[i + k] != p[k] {
            assert(v@.subrange(i as int, i + p@.len())[k as int] != p@[k as int]);
            return false;
        }
        k = k + 1;
    }
    assert(v@.subrange(i as int, i + p@.len()) =~= p@);
    true
}

/// Whether `w` occurs in `s`.
pub fn contains_text(s: &str, w: &str) -> (r: bool)
    ensures
        r == text_contains(s@, w@),
{
    let v = chars_of(s);
    let p = chars_of(w);
    if p.len() > v.len() {
        return false;
    }
    let last = v.len() - p.len();
    let mut i: usize = 0;
    while i <= last
        invariant
            v@ == s@,
            p@ == w@,
            last == v@.len() - p@.len(),
            i <= last + 1,
            forall|j: int| 0 <= j < i ==> #[trigger] s@.subrange(j, j + w@.len()) != w@,
        decreases last + 1 - i,
    {
        if occurs_at(&v, &p, i) {
            return true;
        }
        if i == last {
            return false;
        }
        i = i + 1;
    }
    false
}

pub open spec fn ascii_upper_char(c: char) -> char {
    if 'a' <= c && c <= 'z' {
        ((c as u32) - 32) as char
    } else {
        c
    }
}

/// `s` with ASCII letters in upper case (`str::to_ascii_uppercase`).
pub open spec fn ascii_upper(s: Seq<char>) -> Seq<char> {
    s.map_values(|c: char| ascii_upper_char(c))
}

pub fn to_ascii_uppercase(s: &str) -> (u: String)
    ensures
        u@ == ascii_upper(s@),
{
    let mut u = String::new();
    for c in it: s.chars()
        invariant
            it.seq() == s@,
            u@ == ascii_upper(s@.take(it.index() as int)),
    {
        let d = if 'a' <= c && c <= 'z' {
            ((c as u8) - 32) as char
        } else {
            c
        };
        assert(d == ascii_upper_char(c));
        push_char(&mut u, d);
        assert(u@ =~= ascii_upper(s@.take(it.index() + 1)));
    }
    assert(s@.take(s@.len() as int) =~= s@);
    u
}

/// Decimal digits, with or without one leading `+`, parse to the number
/// they spell when it fits in 64 bits; nothing else parses: no sign but
/// `+`, no empty number, no other character.
pub proof fn lemma_parse_u64(d: Seq<char>)
    ensures
        d.len() > 0 && all_digits(d) && digits_value(d) <= u64::MAX ==> parsed_u64(d) == Some(
            digits_value(d) as u64,
        ) && parsed_u64(seq!['+'] + d) == Some(digits_value(d) as u64),
        d.len() > 0 && all_digits(d) && digits_value(d) > u64::MAX ==> parsed_u64(d) is None,
        parsed_u64(seq!['-'] + d) is None,
        parsed_u64(Seq::<char>::empty()) is None,
        parsed_u64(seq!['+']) is None,
        (exists|i: int| 0 <= i < d.len() && !is_digit(#[trigger] d[i]) && d[i] != '+')
            ==> parsed_u64(d) is None,
{
    assert((seq!['+'] + d).skip(1) =~= d);
    let m = seq!['-'] + d;
    assert(m[0] == '-');
    assert(!is_digit(m[0]));
    assert(seq!['+'].skip(1) =~= Seq::<char>::empty());
    if exists|i: int| 0 <= i < d.len() && !is_digit(#[trigger] d[i]) && d[i] != '+' {
        let i = choose|i: int| 0 <= i < d.len() && !is_digit(#[trigger] d[i]) && d[i] != '+';
        let u = unsigned_part(d);
        if d.len() > 0 && d[0] == '+' {
            assert(i > 0);
            assert(u[i - 1] == d[i]);
        } else {
            assert(u[i] == d[i]);
        }
    }
}

/// Whitespace at either end is dropped by trimming, and nothing else:
/// text that neither starts nor ends with whitespace is kept.
pub proof fn lemma_trim(s: Seq<char>, w: char)
    requires
        is_whitespace(w),
    ensures
        trim_start(seq![w] + s) == trim_start(s),
        trim_end(s + seq![w]) == trim_end(s),
        (s.len() == 0 || (!is_whitespace(s[0]) && !is_whitespace(s.last()))) ==> trimmed(s) == s,
        without_trailing_colons(s + seq![':']) == without_trailing_colons(s),
        (s.len() == 0 || s.last() != ':') ==> without_trailing_colons(s) == s,
{
    assert((seq![w] + s).skip(1) =~= s);
    assert((s + seq![w]).drop_last() =~= s);
    assert((s + seq![':']).drop_last() =~= s);
}

/// Upper-casing changes ASCII lower-case letters into capitals and leaves
/// every other character, and the length, as they are.
pub proof fn lemma_ascii_upper(s: Seq<char>)
    ensures
        ascii_upper(s).len() == s.len(),
        forall|i: int|
            0 <= i < s.len() && 'a' <= #[trigger] s[i] && s[i] <= 'z' ==> ascii_upper(s)[i] as u32
                == s[i] as u32 - 32,
        forall|i: int|
            0 <= i < s.len() && !('a' <= #[trigger] s[i] && s[i] <= 'z') ==> ascii_upper(s)[i]
                == s[i],
{
    assert forall|i: int| 0 <= i < s.len() && 'a' <= #[trigger] s[i] && s[i] <= 'z' implies ascii_upper(
        s,
    )[i] as u32 == s[i] as u32 - 32 by {
        assert(ascii_upper(s)[i] == ascii_upper_char(s[i]));
        assert((((s[i] as u32) - 32) as char) as u32 == (s[i] as u32) - 32) by {
            vstd::utf8::char_u32_cast(ascii_upper(s)[i], ((s[i] as u32) - 32) as u32);
        }
    }
}

} // verus!
