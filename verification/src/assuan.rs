//! The Assuan side: parsing gpg-agent's request lines and composing the
//! response lines sent back.

use vstd::prelude::*;
use vstd::string::StringSliceAdditionalSpecFns;
use vstd::utf8::{decode_utf8, valid_utf8};

use crate::secret::wipe;
use crate::text::{ascii_upper, from_utf8_lossy, push_char, to_ascii_uppercase, utf8_lossy};

verus! {

// gpg-error codes with GPG_ERR_SOURCE_PINENTRY (5 << 24), as sent by the
// upstream pinentry programs.
pub const SOURCE_PINENTRY: u32 = 0x0500_0000;

pub const ERR_CANCELED: u32 = SOURCE_PINENTRY + 99;

pub const ERR_NOT_CONFIRMED: u32 = SOURCE_PINENTRY + 114;

pub const ERR_TIMEOUT: u32 = SOURCE_PINENTRY + 62;

pub const ERR_PIN_ENTRY: u32 = SOURCE_PINENTRY + 86;

pub const ERR_UNKNOWN_CMD: u32 = SOURCE_PINENTRY + 275;

pub const ERR_INV_VALUE: u32 = SOURCE_PINENTRY + 55;

pub const ERR_LINE_TOO_LONG: u32 = SOURCE_PINENTRY + 263;

/// Assuan lines are limited to 1000 bytes, the newline included.
pub const MAX_RESPONSE_LINE: usize = 1000;

/// The longest request line accepted from gpg-agent, its newline included.
pub const MAX_REQUEST_LINE: usize = 1000;

/// The most escaped bytes one "D" line carries: the line limit less "D ",
/// the newline and one byte of slack.
pub const MAX_DATA_PER_LINE: usize = MAX_RESPONSE_LINE - 4;

/// `s` without one trailing `b`.
pub open spec fn without_suffix(s: Seq<u8>, b: u8) -> Seq<u8> {
    if s.len() > 0 && s.last() == b {
        s.drop_last()
    } else {
        s
    }
}

/// A request line without its line ending ("\n", "\r\n" or "\r").
pub open spec fn line_body(line: Seq<u8>) -> Seq<u8> {
    without_suffix(without_suffix(line, 10), 13)
}

/// The first index of `s` at which `(s[i] == b) == eq`, or `s.len()`.
pub open spec fn first_index(s: Seq<u8>, b: u8, eq: bool) -> int
    decreases s.len(),
{
    if s.len() == 0 {
        0
    } else if (s[0] == b) == eq {
        0
    } else {
        1 + first_index(s.skip(1), b, eq)
    }
}

/// The command word of a request line: what precedes its first space.
pub open spec fn command_bytes(line: Seq<u8>) -> Seq<u8> {
    let body = line_body(line);
    body.take(first_index(body, 32, true))
}

/// The argument of a request line: what follows the first space, less
/// the spaces that lead it.
pub open spec fn argument_bytes(line: Seq<u8>) -> Seq<u8> {
    let body = line_body(line);
    let i = first_index(body, 32, true);
    let rest = if i < body.len() {
        body.skip(i + 1)
    } else {
        body.skip(body.len() as int)
    };
    rest.skip(first_index(rest, 32, false))
}

proof fn lemma_first_index(s: Seq<u8>, b: u8, eq: bool, i: int)
    requires
        0 <= i <= s.len(),
        forall|j: int| 0 <= j < i ==> (s[j] == b) != eq,
        i == s.len() || (s[i] == b) == eq,
    ensures
        first_index(s, b, eq) == i,
    decreases i,
{
    if i > 0 {
        lemma_first_index(s.skip(1), b, eq, i - 1);
    }
}

/// The first index from `from` on at which `(s[i] == b) == eq`, or `s.len()`.
fn find_byte(s: &[u8], from: usize, b: u8, eq: bool) -> (i: usize)
    requires
        from <= s@.len(),
    ensures
        from <= i <= s@.len(),
        i - from == first_index(s@.skip(from as int), b, eq),
{
    let mut i = from;
    while i < s.len() && (s[i] == b) != eq
        invariant
            from <= i <= s@.len(),
            forall|j: int| from <= j < i ==> (s@[j] == b) != eq,
        decreases s@.len() - i,
    {
        i = i + 1;
    }
    proof {
        lemma_first_index(s@.skip(from as int), b, eq, i - from);
    }
    i
}

/// Splits a request line into its (upper-cased) command and raw argument.
pub fn split_command(line: &[u8]) -> (r: (String, &[u8]))
    ensures
        r.0@ == ascii_upper(utf8_lossy(command_bytes(line@))),
        valid_utf8(command_bytes(line@)) ==> r.0@ == ascii_upper(
            decode_utf8(command_bytes(line@)),
        ),
        r.1@ == argument_bytes(line@),
{
    let mut end = line.len();
    if end > 0 && line[end - 1] == 10 {
        end = end - 1;
    }
    if end > 0 && line[end - 1] == 13 {
        end = end - 1;
    }
    let body = vstd::slice::slice_subrange(line, 0, end);
    assert(body@ =~= line_body(line@));
    assert(body@.skip(0) =~= body@);
    let space = find_byte(body, 0, 32, true);
    let rest_start = if space < body.len() {
        space + 1
    } else {
        space
    };
    let skipped = find_byte(body, rest_start, 32, false);
    let cmd = vstd::slice::slice_subrange(body, 0, space);
    let arg = vstd::slice::slice_subrange(body, skipped, body.len());
    assert(cmd@ =~= command_bytes(line@));
    assert(arg@ =~= argument_bytes(line@));
    let text = from_utf8_lossy(cmd);
    (to_ascii_uppercase(text.as_str()), arg)
}

pub open spec fn is_hex_digit(b: u8) -> bool {
    (0x30 <= b && b <= 0x39) || (0x41 <= b && b <= 0x46) || (0x61 <= b && b <= 0x66)
}

pub open spec fn hex_value(b: u8) -> u8 {
    if b <= 0x39 {
        (b - 0x30) as u8
    } else if b <= 0x46 {
        (b - 0x41 + 10) as u8
    } else {
        (b - 0x61 + 10) as u8
    }
}

/// The byte that the two characters after a `%` stand for, when they are
/// two hex digits (of either case). Anything else is no escape.
pub open spec fn escape_value(hi: u8, lo: u8) -> Option<u8> {
    if is_hex_digit(hi) && is_hex_digit(lo) {
        Some((16 * hex_value(hi) + hex_value(lo)) as u8)
    } else {
        None
    }
}

/// `s` with its `%XX` escapes decoded; invalid escapes stay as they are.
pub open spec fn percent_decoded(s: Seq<u8>) -> Seq<u8>
    decreases s.len(),
{
    if s.len() == 0 {
        s
    } else if s[0] == 0x25 && s.len() >= 3 && escape_value(s[1], s[2]) is Some {
        seq![escape_value(s[1], s[2])->0] + percent_decoded(s.skip(3))
    } else {
        seq![s[0]] + percent_decoded(s.skip(1))
    }
}

fn hex_digit_value(b: u8) -> (r: Option<u8>)
    ensures
        r == if is_hex_digit(b) {
            Some(hex_value(b))
        } else {
            None::<u8>
        },
{
    if 0x30 <= b && b <= 0x39 {
        Some(b - 0x30)
    } else if 0x41 <= b && b <= 0x46 {
        Some(b - 0x41 + 10)
    } else if 0x61 <= b && b <= 0x66 {
        Some(b - 0x61 + 10)
    } else {
        None
    }
}

fn decode_escape(hi: u8, lo: u8) -> (r: Option<u8>)
    ensures
        r == escape_value(hi, lo),
{
    match (hex_digit_value(hi), hex_digit_value(lo)) {
        (Some(h), Some(l)) => Some(16 * h + l),
        _ => None,
    }
}

/// Decodes Assuan %XX escapes into `out`; invalid escapes are kept literally.
pub fn percent_decode_into(arg: &[u8], out: &mut Vec<u8>)
    ensures
        final(out)@ == old(out)@ + percent_decoded(arg@),
{
    let ghost start = out@;
    let mut i: usize = 0;
    assert(arg@.skip(0) =~= arg@);
    while i < arg.len()
        invariant
            i <= arg@.len(),
            start + percent_decoded(arg@) == out@ + percent_decoded(arg@.skip(i as int)),
        decreases arg@.len() - i,
    {
        let ghost rest = arg@.skip(i as int);
        if arg[i] == 0x25 && arg.len() - i >= 3 {
            if let Some(byte) = decode_escape(arg[i + 1], arg[i + 2]) {
                out.push(byte);
                assert(rest.skip(3) =~= arg@.skip(i + 3));
                i = i + 3;
                continue;
            }
        }
        out.push(arg[i]);
        assert(rest.skip(1) =~= arg@.skip(i + 1));
        i = i + 1;
    }
    assert(arg@.skip(i as int) =~= Seq::<u8>::empty());
}

/// Decodes Assuan %XX escapes; invalid escapes are kept literally.
pub fn percent_decode(arg: &[u8]) -> (s: String)
    ensures
        s@ == utf8_lossy(percent_decoded(arg@)),
        valid_utf8(percent_decoded(arg@)) ==> s@ == decode_utf8(percent_decoded(arg@)),
{
    let mut out: Vec<u8> = Vec::with_capacity(arg.len());
    percent_decode_into(arg, &mut out);
    assert(out@ =~= percent_decoded(arg@));
    from_utf8_lossy(out.as_slice())
}

/// A label without its GTK mnemonic underscores: a lone `_` is dropped,
/// `__` stands for one `_`.
pub open spec fn mnemonic_free(s: Seq<char>) -> Seq<char>
    decreases s.len(),
{
    if s.len() == 0 {
        s
    } else if s[0] == '_' {
        if s.len() >= 2 && s[1] == '_' {
            seq!['_'] + mnemonic_free(s.skip(2))
        } else {
            mnemonic_free(s.skip(1))
        }
    } else {
        seq![s[0]] + mnemonic_free(s.skip(1))
    }
}

/// Strips GTK-style mnemonic underscores from button labels ("_OK" -> "OK",
/// "__" -> "_").
pub fn strip_mnemonic(label: &str) -> (out: String)
    ensures
        out@ == mnemonic_free(label@),
{
    let mut out = String::new();
    // Whether the character before the current one is an underscore not
    // yet accounted for.
    let mut pending = false;
    assert(label@.skip(0) =~= label@);
    for c in it: label.chars()
        invariant
            it.seq() == label@,
            pending ==> it.index() > 0 && label@[it.index() - 1] == '_',
            mnemonic_free(label@) == out@ + mnemonic_free(
                label@.skip(
                    if pending {
                        it.index() - 1
                    } else {
                        it.index() as int
                    },
                ),
            ),
    {
        let ghost i = it.index() as int;
        let ghost before = out@;
        let ghost r = label@.skip(if pending {
            i - 1
        } else {
            i
        });
        assert(label@[i] == c);
        assert(label@.skip(i).skip(1) =~= label@.skip(i + 1));
        assert(label@.skip(i)[0] == c);
        if pending {
            assert(label@.skip(i - 1).skip(1) =~= label@.skip(i));
            assert(label@.skip(i - 1).skip(2) =~= label@.skip(i + 1));
            assert(r[0] == '_' && r[1] == c);
        }
        if c == '_' {
            if pending {
                push_char(&mut out, '_');
                assert(mnemonic_free(r) == seq!['_'] + mnemonic_free(label@.skip(i + 1)));
                assert(before + mnemonic_free(r) =~= out@ + mnemonic_free(label@.skip(i + 1)));
                pending = false;
            } else {
                pending = true;
            }
        } else {
            push_char(&mut out, c);
            assert(mnemonic_free(label@.skip(i)) == seq![c] + mnemonic_free(label@.skip(i + 1)));
            assert(mnemonic_free(r) == mnemonic_free(label@.skip(i)));
            assert(before + mnemonic_free(r) =~= out@ + mnemonic_free(label@.skip(i + 1)));
            pending = false;
        }
    }
    if pending {
        assert(label@.skip(label@.len() - 1) =~= seq!['_']);
        assert(mnemonic_free(seq!['_']) =~= Seq::<char>::empty()) by {
            assert(seq!['_'].skip(1) =~= Seq::<char>::empty());
            assert(mnemonic_free(Seq::<char>::empty()) =~= Seq::<char>::empty());
        }
    }
    assert(label@.skip(label@.len() as int) =~= Seq::<char>::empty());
    assert(out@ =~= mnemonic_free(label@));
    out
}

/// Unicode's control characters (general category Cc), which
/// `char::is_control` tests.
pub open spec fn is_control(c: char) -> bool {
    c <= '\u{1f}' || ('\u{7f}' <= c && c <= '\u{9f}')
}

/// Characters that must not reach the dialog: controls other than newline
/// and tab, and the marks and overrides that reorder bidirectional text.
pub open spec fn is_hidden(c: char) -> bool {
    ||| (is_control(c) && c != '\n' && c != '\t')
    ||| c == '\u{61c}'
    ||| c == '\u{200e}'
    ||| c == '\u{200f}'
    ||| ('\u{202a}' <= c && c <= '\u{202e}')
    ||| ('\u{2066}' <= c && c <= '\u{2069}')
}

/// `s` without its hidden characters.
pub open spec fn without_hidden(s: Seq<char>) -> Seq<char>
    decreases s.len(),
{
    if s.len() == 0 {
        s
    } else if is_hidden(s.last()) {
        without_hidden(s.drop_last())
    } else {
        without_hidden(s.drop_last()).push(s.last())
    }
}

/// Whether `c` is a control character (other than newline and tab) or a
/// bidirectional mark or override, which could disguise displayed text.
pub fn is_hidden_char(c: char) -> (r: bool)
    ensures
        r == is_hidden(c),
{
    let control = c <= '\u{1f}' || ('\u{7f}' <= c && c <= '\u{9f}');
    (control && c != '\n' && c != '\t') || c == '\u{61c}' || c == '\u{200e}' || c == '\u{200f}'
        || ('\u{202a}' <= c && c <= '\u{202e}') || ('\u{2066}' <= c && c <= '\u{2069}')
}

/// Strips the characters that could disguise what the dialog shows.
pub fn sanitize_display(text: &str) -> (out: String)
    ensures
        out@ == without_hidden(text@),
{
    let mut out = String::new();
    for c in it: text.chars()
        invariant
            it.seq() == text@,
            out@ == without_hidden(text@.take(it.index() as int)),
    {
        let ghost i = it.index() as int;
        assert(text@.take(i + 1).drop_last() =~= text@.take(i));
        assert(text@.take(i + 1).last() == c);
        if !is_hidden_char(c) {
            push_char(&mut out, c);
        }
    }
    assert(text@.take(text@.len() as int) =~= text@);
    out
}

/// Bytes that a response line must not carry in its text.
pub open spec fn is_control_byte(b: u8) -> bool {
    b < 0x20 || b == 0x7f
}

/// `s` without its control bytes.
pub open spec fn without_control_bytes(s: Seq<u8>) -> Seq<u8>
    decreases s.len(),
{
    if s.len() == 0 {
        s
    } else if is_control_byte(s.last()) {
        without_control_bytes(s.drop_last())
    } else {
        without_control_bytes(s.drop_last()).push(s.last())
    }
}

/// A byte that continues, rather than starts, a UTF-8 encoded character.
pub open spec fn is_continuation(b: u8) -> bool {
    0x80 <= b && b < 0xc0
}

/// The largest `k <= n` at which `s` can be cut without splitting a
/// character.
pub open spec fn char_floor(s: Seq<u8>, n: int) -> int
    decreases n,
{
    if n <= 0 || n >= s.len() || !is_continuation(s[n]) {
        n
    } else {
        char_floor(s, n - 1)
    }
}

/// The longest prefix of `s`, cut at a character boundary, that holds at
/// most `room` bytes.
pub open spec fn fitted(s: Seq<u8>, room: int) -> Seq<u8> {
    if s.len() <= room {
        s
    } else {
        s.take(char_floor(s, room))
    }
}

/// The text of a response line made from `msg`: its control bytes
/// dropped, then cut to `room` bytes.
pub open spec fn line_text(msg: Seq<u8>, room: int) -> Seq<u8> {
    fitted(without_control_bytes(msg), room)
}

/// The decimal digits of `n`.
pub open spec fn decimal(n: nat) -> Seq<u8>
    decreases n,
{
    if n < 10 {
        seq![(0x30 + n) as u8]
    } else {
        decimal(n / 10).push((0x30 + n % 10) as u8)
    }
}

/// "OK", or "OK " and a message, as a response line.
pub open spec fn ok_line(msg: Option<Seq<u8>>) -> Seq<u8> {
    match msg {
        None => seq![0x4f, 0x4b, 10],
        Some(m) => seq![0x4f, 0x4b, 0x20] + line_text(m, MAX_RESPONSE_LINE - 4) + seq![10],
    }
}

/// "ERR ", the error code and a message, as a response line.
pub open spec fn err_line(code: u32, msg: Seq<u8>) -> Seq<u8> {
    let digits = decimal(code as nat);
    seq![0x45, 0x52, 0x52, 0x20] + digits + seq![0x20] + line_text(
        msg,
        MAX_RESPONSE_LINE - 6 - digits.len(),
    ) + seq![10]
}

/// "S " and a status keyword, as a response line.
pub open spec fn status_line(keyword: Seq<u8>) -> Seq<u8> {
    seq![0x53, 0x20] + line_text(keyword, MAX_RESPONSE_LINE - 3) + seq![10]
}

/// One line that gpg-agent accepts as a response: within Assuan's line
/// limit, free of control bytes, and one of the response kinds.
pub open spec fn response_line_ok(l: Seq<u8>) -> bool {
    &&& 3 <= l.len() <= MAX_RESPONSE_LINE
    &&& l.last() == 10
    &&& forall|i: int| 0 <= i < l.len() - 1 ==> #[trigger] l[i] >= 0x20
    &&& {
        ||| (l[0] == 0x4f && l[1] == 0x4b)
        ||| (l[0] == 0x45 && l[1] == 0x52 && l[2] == 0x52 && l[3] == 0x20)
        ||| (l[0] == 0x44 && l[1] == 0x20)
        ||| (l[0] == 0x53 && l[1] == 0x20)
    }
}

/// Bytes that are a sequence of well-formed response lines.
pub open spec fn response_lines(s: Seq<u8>) -> bool {
    exists|ls: Seq<Seq<u8>>|
        #![trigger ls.flatten()]
        ls.flatten() == s && forall|i: int| 0 <= i < ls.len() ==> response_line_ok(#[trigger] ls[i])
}

/// Two runs of response lines, one after the other, are response lines.
pub proof fn lemma_response_lines_concat(a: Seq<u8>, b: Seq<u8>)
    requires
        response_lines(a),
        response_lines(b),
    ensures
        response_lines(a + b),
{
    let la = choose|ls: Seq<Seq<u8>>|
        #![trigger ls.flatten()]
        ls.flatten() == a && forall|i: int| 0 <= i < ls.len() ==> response_line_ok(#[trigger] ls[i]);
    let lb = choose|ls: Seq<Seq<u8>>|
        #![trigger ls.flatten()]
        ls.flatten() == b && forall|i: int| 0 <= i < ls.len() ==> response_line_ok(#[trigger] ls[i]);
    vstd::seq_lib::lemma_flatten_concat(la, lb);
    let l = la + lb;
    assert forall|i: int| 0 <= i < l.len() implies response_line_ok(#[trigger] l[i]) by {
        if i < la.len() {
            assert(l[i] == la[i]);
        } else {
            assert(l[i] == lb[i - la.len()]);
        }
    }
    assert(l.flatten() == a + b);
}

/// One well-formed line is a run of response lines.
pub proof fn lemma_response_line(l: Seq<u8>)
    requires
        response_line_ok(l),
    ensures
        response_lines(l),
{
    let ls = seq![l];
    ls.lemma_flatten_one_element();
    assert(ls.flatten() == l);
}

/// Nothing is a run of response lines.
pub proof fn lemma_response_lines_empty()
    ensures
        response_lines(Seq::<u8>::empty()),
{
    let ls = Seq::<Seq<u8>>::empty();
    assert(ls.flatten() =~= Seq::<u8>::empty());
}

/// Appends `s[from..to]` to `out`.
fn push_range(out: &mut Vec<u8>, s: &[u8], from: usize, to: usize)
    requires
        from <= to <= s@.len(),
    ensures
        final(out)@ == old(out)@ + s@.subrange(from as int, to as int),
{
    let ghost start = out@;
    let mut i = from;
    while i < to
        invariant
            from <= i <= to <= s@.len(),
            out@ == start + s@.subrange(from as int, i as int),
        decreases to - i,
    {
        out.push(s[i]);
        i = i + 1;
        assert(out@ =~= start + s@.subrange(from as int, i as int));
    }
}

/// Appends the decimal digits of `n` to `out`.
fn push_decimal(out: &mut Vec<u8>, n: u32)
    ensures
        final(out)@ == old(out)@ + decimal(n as nat),
    decreases n,
{
    if n >= 10 {
        push_decimal(out, n / 10);
    }
    out.push(0x30 + (n % 10) as u8);
    proof {
        if n >= 10 {
            assert(decimal(n as nat) == decimal((n / 10) as nat).push((0x30 + n % 10) as u8));
        }
    }
    assert(final(out)@ =~= old(out)@ + decimal(n as nat));
}

proof fn lemma_char_floor(s: Seq<u8>, n: int)
    requires
        0 <= n,
    ensures
        0 <= char_floor(s, n) <= n,
    decreases n,
{
    if !(n <= 0 || n >= s.len() || !is_continuation(s[n])) {
        lemma_char_floor(s, n - 1);
    }
}

/// Appends `line_text(msg, room)` to `out`.
fn push_line_text(out: &mut Vec<u8>, msg: &[u8], room: usize)
    ensures
        final(out)@ == old(out)@ + line_text(msg@, room as int),
{
    let mut clean: Vec<u8> = Vec::new();
    let n = msg.len();
    for i in 0..n
        invariant
            n == msg@.len(),
            clean@ == without_control_bytes(msg@.take(i as int)),
    {
        let b = msg[i];
        assert(msg@.take(i + 1).drop_last() =~= msg@.take(i as int));
        if !(b < 0x20 || b == 0x7f) {
            clean.push(b);
        }
    }
    assert(msg@.take(n as int) =~= msg@);
    let mut cut = clean.len();
    if cut > room {
        cut = room;
        while cut > 0 && 0x80 <= clean[cut] && clean[cut] < 0xc0
            invariant
                cut <= room < clean@.len(),
                char_floor(clean@, room as int) == char_floor(clean@, cut as int),
            decreases cut,
        {
            cut = cut - 1;
        }
    }
    push_range(out, clean.as_slice(), 0, cut);
    assert(clean@.subrange(0, cut as int) =~= line_text(msg@, room as int));
}

pub open spec fn pow10(k: nat) -> nat
    decreases k,
{
    if k == 0 {
        1
    } else {
        10 * pow10((k - 1) as nat)
    }
}

proof fn lemma_decimal_bounded(n: nat, k: nat)
    requires
        k >= 1,
        n < pow10(k),
    ensures
        decimal(n).len() <= k,
        forall|i: int| 0 <= i < decimal(n).len() ==> 0x30 <= #[trigger] decimal(n)[i] <= 0x39,
    decreases n,
{
    if n >= 10 {
        assert(pow10(1) == 10) by {
            reveal_with_fuel(pow10, 2);
        }
        assert(k >= 2);
        assert(pow10(k) == 10 * pow10((k - 1) as nat));
        lemma_decimal_bounded(n / 10, (k - 1) as nat);
    }
}

/// The decimal digits of a `u32`: at most ten, all ASCII digits.
pub proof fn lemma_decimal_u32(n: u32)
    ensures
        1 <= decimal(n as nat).len() <= 10,
        forall|i: int|
            0 <= i < decimal(n as nat).len() ==> 0x30 <= #[trigger] decimal(n as nat)[i] <= 0x39,
{
    reveal_with_fuel(pow10, 11);
    assert(pow10(10) == 10000000000);
    lemma_decimal_bounded(n as nat, 10);
    if n >= 10 {
        assert(decimal(n as nat).len() == decimal((n / 10) as nat).len() + 1);
    }
}

proof fn lemma_without_control_bytes(s: Seq<u8>)
    ensures
        without_control_bytes(s).len() <= s.len(),
        forall|i: int|
            0 <= i < without_control_bytes(s).len() ==> !is_control_byte(
                #[trigger] without_control_bytes(s)[i],
            ),
    decreases s.len(),
{
    if s.len() > 0 {
        lemma_without_control_bytes(s.drop_last());
    }
}

/// The text of a response line is at most `room` bytes long and holds no
/// control byte.
pub proof fn lemma_line_text(msg: Seq<u8>, room: int)
    requires
        room >= 0,
    ensures
        line_text(msg, room).len() <= room,
        forall|i: int|
            0 <= i < line_text(msg, room).len() ==> !is_control_byte(
                #[trigger] line_text(msg, room)[i],
            ),
{
    let clean = without_control_bytes(msg);
    lemma_without_control_bytes(msg);
    if clean.len() > room {
        lemma_char_floor(clean, room);
        assert forall|i: int| 0 <= i < line_text(msg, room).len() implies !is_control_byte(
            #[trigger] line_text(msg, room)[i],
        ) by {
            assert(line_text(msg, room)[i] == clean[i]);
        }
    }
}

/// An "OK" line is a well-formed response line.
pub proof fn lemma_ok_line(msg: Option<Seq<u8>>)
    ensures
        response_line_ok(ok_line(msg)),
{
    if let Some(m) = msg {
        lemma_line_text(m, MAX_RESPONSE_LINE - 4);
        let l = ok_line(msg);
        let t = line_text(m, MAX_RESPONSE_LINE - 4);
        assert forall|i: int| 0 <= i < l.len() - 1 implies #[trigger] l[i] >= 0x20 by {
            if i >= 3 {
                assert(l[i] == t[i - 3]);
            }
        }
    }
}

/// An "ERR" line is a well-formed response line.
pub proof fn lemma_err_line(code: u32, msg: Seq<u8>)
    ensures
        response_line_ok(err_line(code, msg)),
{
    let digits = decimal(code as nat);
    lemma_decimal_u32(code);
    let room = MAX_RESPONSE_LINE - 6 - digits.len();
    lemma_line_text(msg, room);
    let t = line_text(msg, room);
    let l = err_line(code, msg);
    assert forall|i: int| 0 <= i < l.len() - 1 implies #[trigger] l[i] >= 0x20 by {
        if 4 <= i < 4 + digits.len() {
            assert(l[i] == digits[i - 4]);
        } else if 5 + digits.len() <= i {
            assert(l[i] == t[i - 5 - digits.len()]);
        }
    }
}

/// An "S" line is a well-formed response line.
pub proof fn lemma_status_line(keyword: Seq<u8>)
    ensures
        response_line_ok(status_line(keyword)),
{
    lemma_line_text(keyword, MAX_RESPONSE_LINE - 3);
    let t = line_text(keyword, MAX_RESPONSE_LINE - 3);
    let l = status_line(keyword);
    assert forall|i: int| 0 <= i < l.len() - 1 implies #[trigger] l[i] >= 0x20 by {
        if i >= 2 {
            assert(l[i] == t[i - 2]);
        }
    }
}

/// Bytes that travel escaped in "D" lines.
pub open spec fn needs_escape(b: u8) -> bool {
    b == 0x25 || b == 13 || b == 10 || b < 0x20
}

/// The upper-case hex digit for `n < 16`.
pub open spec fn hex_char(n: int) -> u8 {
    if n < 10 {
        (0x30 + n) as u8
    } else {
        (0x41 + n - 10) as u8
    }
}

/// How one byte travels in a "D" line.
pub open spec fn escaped(b: u8) -> Seq<u8> {
    if needs_escape(b) {
        seq![0x25, hex_char((b / 16) as int), hex_char((b % 16) as int)]
    } else {
        seq![b]
    }
}

/// `d` with each byte escaped as Assuan requires.
pub open spec fn percent_encoded(d: Seq<u8>) -> Seq<u8>
    decreases d.len(),
{
    if d.len() == 0 {
        d
    } else {
        percent_encoded(d.drop_last()) + escaped(d.last())
    }
}

/// How many bytes of the escaped data `e` go into the next "D" line: as
/// many as fit, but never part of a %XX escape.
pub open spec fn data_cut(e: Seq<u8>) -> int {
    if e.len() <= MAX_DATA_PER_LINE {
        e.len() as int
    } else if e[MAX_DATA_PER_LINE - 2] == 0x25 {
        MAX_DATA_PER_LINE - 2
    } else if e[MAX_DATA_PER_LINE - 1] == 0x25 {
        MAX_DATA_PER_LINE - 1
    } else {
        MAX_DATA_PER_LINE as int
    }
}

/// One "D" line carrying `chunk`.
pub open spec fn data_line(chunk: Seq<u8>) -> Seq<u8> {
    seq![0x44, 0x20] + chunk + seq![10]
}

/// The "D" lines that carry the escaped data `e`.
pub open spec fn data_lines_of(e: Seq<u8>) -> Seq<u8>
    decreases e.len(),
{
    if e.len() == 0 {
        e
    } else {
        data_line(e.take(data_cut(e))) + data_lines_of(e.skip(data_cut(e)))
    }
}

/// The "D" lines that send `data`.
pub open spec fn data_lines(data: Seq<u8>) -> Seq<u8> {
    data_lines_of(percent_encoded(data))
}

fn hex_char_of(n: u8) -> (c: u8)
    requires
        n < 16,
    ensures
        c == hex_char(n as int),
{
    if n < 10 {
        0x30 + n
    } else {
        0x41 + n - 10
    }
}

/// Appends `data` to `out`, escaped as Assuan requires.
pub fn percent_encode_into(data: &[u8], out: &mut Vec<u8>)
    ensures
        final(out)@ == old(out)@ + percent_encoded(data@),
{
    let ghost start = out@;
    let n = data.len();
    for i in 0..n
        invariant
            n == data@.len(),
            out@ == start + percent_encoded(data@.take(i as int)),
    {
        let b = data[i];
        if b == 0x25 || b == 13 || b == 10 || b < 0x20 {
            out.push(0x25);
            out.push(hex_char_of(b / 16));
            out.push(hex_char_of(b % 16));
        } else {
            out.push(b);
        }
        assert(data@.take(i + 1).drop_last() =~= data@.take(i as int));
        assert(out@ =~= start + percent_encoded(data@.take(i + 1)));
    }
    assert(data@.take(n as int) =~= data@);
}

/// Escaped data carries no control byte.
pub proof fn lemma_percent_encoded_printable(d: Seq<u8>)
    ensures
        forall|i: int|
            0 <= i < percent_encoded(d).len() ==> #[trigger] percent_encoded(d)[i] >= 0x20,
    decreases d.len(),
{
    if d.len() > 0 {
        lemma_percent_encoded_printable(d.drop_last());
        let a = percent_encoded(d.drop_last());
        let b = escaped(d.last());
        assert forall|i: int| 0 <= i < percent_encoded(d).len() implies #[trigger] percent_encoded(
            d,
        )[i] >= 0x20 by {
            if i < a.len() {
                assert(percent_encoded(d)[i] == a[i]);
            } else {
                assert(percent_encoded(d)[i] == b[i - a.len()]);
            }
        }
    }
}

proof fn lemma_data_cut(e: Seq<u8>)
    requires
        e.len() > 0,
    ensures
        0 < data_cut(e) <= e.len(),
        data_cut(e) <= MAX_DATA_PER_LINE,
{
}

/// "D" lines built from printable escaped data are well-formed response
/// lines.
proof fn lemma_data_lines_of(e: Seq<u8>)
    requires
        forall|i: int| 0 <= i < e.len() ==> #[trigger] e[i] >= 0x20,
    ensures
        response_lines(data_lines_of(e)),
    decreases e.len(),
{
    if e.len() == 0 {
        lemma_response_lines_empty();
        assert(data_lines_of(e) =~= Seq::<u8>::empty());
    } else {
        let c = data_cut(e);
        lemma_data_cut(e);
        let l = data_line(e.take(c));
        assert forall|i: int| 0 <= i < l.len() - 1 implies #[trigger] l[i] >= 0x20 by {
            if i >= 2 {
                assert(l[i] == e[i - 2]);
            }
        }
        assert(response_line_ok(l));
        lemma_response_line(l);
        let rest = e.skip(c);
        assert forall|i: int| 0 <= i < rest.len() implies #[trigger] rest[i] >= 0x20 by {
            assert(rest[i] == e[i + c]);
        }
        lemma_data_lines_of(rest);
        lemma_response_lines_concat(l, data_lines_of(rest));
        assert(data_lines_of(e) == l + data_lines_of(rest));
    }
}

/// "D" lines are well-formed response lines, whatever the data.
pub proof fn lemma_data_lines(data: Seq<u8>)
    ensures
        response_lines(data_lines(data)),
{
    lemma_percent_encoded_printable(data);
    lemma_data_lines_of(percent_encoded(data));
}

/// The texts of the "D" lines that carry the escaped data `e`, each
/// percent-decoded on its own, joined.
pub open spec fn decoded_chunks(e: Seq<u8>) -> Seq<u8>
    decreases e.len(),
{
    if e.len() == 0 {
        e
    } else {
        percent_decoded(e.take(data_cut(e))) + decoded_chunks(e.skip(data_cut(e)))
    }
}

/// Every `%` in `s` starts a whole three-byte escape.
pub open spec fn escapes_whole(s: Seq<u8>) -> bool {
    forall|i: int| 0 <= i < s.len() && #[trigger] s[i] == 0x25 ==> i + 2 < s.len()
}

/// No "D" line that carries the escaped data `e` ends inside an escape.
pub open spec fn chunks_keep_escapes(e: Seq<u8>) -> bool
    decreases e.len(),
{
    e.len() == 0 || (escapes_whole(e.take(data_cut(e))) && chunks_keep_escapes(
        e.skip(data_cut(e)),
    ))
}

proof fn lemma_encode_concat(a: Seq<u8>, b: Seq<u8>)
    ensures
        percent_encoded(a + b) == percent_encoded(a) + percent_encoded(b),
    decreases b.len(),
{
    if b.len() == 0 {
        assert(a + b =~= a);
        assert(percent_encoded(a) + percent_encoded(b) =~= percent_encoded(a));
    } else {
        lemma_encode_concat(a, b.drop_last());
        assert((a + b).drop_last() =~= a + b.drop_last());
        assert((a + b).last() == b.last());
        assert(percent_encoded(a + b) =~= percent_encoded(a) + percent_encoded(b));
    }
}

proof fn lemma_encode_split(d: Seq<u8>, j: int)
    requires
        0 <= j <= d.len(),
    ensures
        percent_encoded(d) == percent_encoded(d.take(j)) + percent_encoded(d.skip(j)),
{
    lemma_encode_concat(d.take(j), d.skip(j));
    assert(d.take(j) + d.skip(j) =~= d);
}

proof fn lemma_encode_first(d: Seq<u8>)
    requires
        d.len() > 0,
    ensures
        percent_encoded(d) == escaped(d[0]) + percent_encoded(d.skip(1)),
{
    lemma_encode_split(d, 1);
    let t = d.take(1);
    assert(t.drop_last() =~= Seq::<u8>::empty());
    assert(percent_encoded(t.drop_last()) =~= Seq::<u8>::empty());
    assert(t.last() == d[0]);
    assert(percent_encoded(t) == percent_encoded(t.drop_last()) + escaped(t.last()));
    assert(percent_encoded(t) =~= escaped(d[0]));
}

proof fn lemma_hex_char(n: int)
    requires
        0 <= n < 16,
    ensures
        is_hex_digit(hex_char(n)),
        hex_value(hex_char(n)) == n,
        hex_char(n) != 0x25,
{
}

proof fn lemma_decode_escaped(x: u8, r: Seq<u8>)
    ensures
        percent_decoded(escaped(x) + r) == seq![x] + percent_decoded(r),
{
    let s = escaped(x) + r;
    if needs_escape(x) {
        lemma_hex_char((x / 16) as int);
        lemma_hex_char((x % 16) as int);
        assert(s[0] == 0x25 && s[1] == hex_char((x / 16) as int) && s[2] == hex_char(
            (x % 16) as int,
        ));
        assert(escape_value(s[1], s[2]) == Some(x));
        assert(s.skip(3) =~= r);
    } else {
        assert(s[0] == x);
        assert(s.skip(1) =~= r);
    }
}

/// Percent-decoding undoes the escaping of "D" lines.
pub proof fn lemma_decode_encode(d: Seq<u8>)
    ensures
        percent_decoded(percent_encoded(d)) == d,
    decreases d.len(),
{
    if d.len() == 0 {
        assert(percent_encoded(d) =~= Seq::<u8>::empty());
    } else {
        lemma_encode_first(d);
        lemma_decode_escaped(d[0], percent_encoded(d.skip(1)));
        lemma_decode_encode(d.skip(1));
        assert(seq![d[0]] + d.skip(1) =~= d);
    }
}

/// Percent-decoding never makes its input longer.
pub proof fn lemma_decode_shrinks(s: Seq<u8>)
    ensures
        percent_decoded(s).len() <= s.len(),
    decreases s.len(),
{
    if s.len() > 0 {
        lemma_decode_shrinks(s.skip(1));
        if s.len() >= 3 {
            lemma_decode_shrinks(s.skip(3));
        }
    }
}

proof fn lemma_encoded_len(d: Seq<u8>)
    ensures
        percent_encoded(d).len() >= d.len(),
    decreases d.len(),
{
    if d.len() > 0 {
        lemma_encoded_len(d.drop_last());
    }
}

/// Where an escaped byte starts in the escaped data.
pub open spec fn is_boundary(d: Seq<u8>, c: int) -> bool {
    exists|j: int| 0 <= j <= d.len() && #[trigger] percent_encoded(d.take(j)).len() == c
}

/// A `%` in escaped data always starts an escape, and a position that is
/// not where a byte's escape starts has a `%` one or two bytes before it.
proof fn lemma_escape_positions(d: Seq<u8>, c: int)
    requires
        0 <= c <= percent_encoded(d).len(),
    ensures
        (c == percent_encoded(d).len() || percent_encoded(d)[c] == 0x25) ==> is_boundary(d, c),
        is_boundary(d, c) || (c >= 1 && percent_encoded(d)[c - 1] == 0x25) || (c >= 2
            && percent_encoded(d)[c - 2] == 0x25),
    decreases d.len(),
{
    let e = percent_encoded(d);
    if c == e.len() {
        assert(d.take(d.len() as int) =~= d);
        assert(percent_encoded(d.take(d.len() as int)).len() == c);
    } else {
        let prev = d.drop_last();
        let ep = percent_encoded(prev);
        let x = escaped(d.last());
        assert(e == ep + x);
        if c <= ep.len() {
            lemma_escape_positions(prev, c);
            if c == ep.len() {
                assert(d.take(prev.len() as int) =~= prev);
                assert(percent_encoded(d.take(prev.len() as int)).len() == c);
            } else {
                assert(e[c] == ep[c]);
            }
            if c >= 1 && c - 1 < ep.len() {
                assert(e[c - 1] == ep[c - 1]);
            }
            if c >= 2 {
                assert(e[c - 2] == ep[c - 2]);
            }
            if is_boundary(prev, c) {
                let j = choose|j: int|
                    0 <= j <= prev.len() && #[trigger] percent_encoded(prev.take(j)).len() == c;
                assert(d.take(j) =~= prev.take(j));
                assert(percent_encoded(d.take(j)).len() == c);
            }
        } else {
            // Inside the escape of the last byte.
            let k = c - ep.len();
            assert(e[c] == x[k]);
            if needs_escape(d.last()) {
                lemma_hex_char((d.last() / 16) as int);
                lemma_hex_char((d.last() % 16) as int);
                assert(e[ep.len() as int] == 0x25);
            }
        }
    }
}

/// Each "D" line ends where an escaped byte ends.
proof fn lemma_data_cut_boundary(d: Seq<u8>)
    requires
        percent_encoded(d).len() > 0,
    ensures
        is_boundary(d, data_cut(percent_encoded(d))),
{
    let e = percent_encoded(d);
    if e.len() <= MAX_DATA_PER_LINE {
        lemma_escape_positions(d, e.len() as int);
    } else {
        lemma_escape_positions(d, MAX_DATA_PER_LINE - 2);
        lemma_escape_positions(d, MAX_DATA_PER_LINE - 1);
        lemma_escape_positions(d, MAX_DATA_PER_LINE as int);
    }
}

proof fn lemma_escapes_whole(d: Seq<u8>)
    ensures
        escapes_whole(percent_encoded(d)),
    decreases d.len(),
{
    if d.len() > 0 {
        let prev = d.drop_last();
        lemma_escapes_whole(prev);
        let ep = percent_encoded(prev);
        let x = escaped(d.last());
        let e = percent_encoded(d);
        assert(e == ep + x);
        lemma_hex_char((d.last() / 16) as int);
        lemma_hex_char((d.last() % 16) as int);
        assert forall|i: int| 0 <= i < e.len() && #[trigger] e[i] == 0x25 implies i + 2 < e.len() by {
            if i < ep.len() {
                assert(ep[i] == e[i]);
            } else {
                assert(e[i] == x[i - ep.len()]);
            }
        }
    }
}

/// Whatever the data, the "D" lines that carry it never end inside an
/// escape, and decoding each line's text on its own and joining the
/// results gives back exactly the data.
pub proof fn lemma_data_lines_decode(d: Seq<u8>)
    ensures
        decoded_chunks(percent_encoded(d)) == d,
        chunks_keep_escapes(percent_encoded(d)),
    decreases d.len(),
{
    let e = percent_encoded(d);
    if e.len() == 0 {
        lemma_encoded_len(d);
        assert(d =~= Seq::<u8>::empty());
        assert(decoded_chunks(e) =~= Seq::<u8>::empty());
    } else {
        let c = data_cut(e);
        lemma_data_cut(e);
        lemma_data_cut_boundary(d);
        let j = choose|j: int| 0 <= j <= d.len() && #[trigger] percent_encoded(d.take(j)).len() == c;
        lemma_encode_split(d, j);
        assert(e.take(c) =~= percent_encoded(d.take(j)));
        assert(e.skip(c) =~= percent_encoded(d.skip(j)));
        assert(j > 0) by {
            if j == 0 {
                assert(d.take(0) =~= Seq::<u8>::empty());
            }
        }
        lemma_decode_encode(d.take(j));
        lemma_escapes_whole(d.take(j));
        lemma_data_lines_decode(d.skip(j));
        assert(d.take(j) + d.skip(j) =~= d);
    }
}

/// Composes the response lines for gpg-agent. The lines accumulate until
/// the program around the library sends them.
pub struct Writer {
    out: Vec<u8>,
}

impl View for Writer {
    type V = Seq<u8>;

    /// The response lines composed and not yet taken.
    closed spec fn view(&self) -> Seq<u8> {
        self.out@
    }
}

impl Writer {
    /// Whatever the writer holds is a run of well-formed response lines.
    #[verifier::type_invariant]
    spec fn well_formed(self) -> bool {
        response_lines(self.out@)
    }

    pub fn new() -> (w: Self)
        ensures
            w@ == Seq::<u8>::empty(),
    {
        proof {
            lemma_response_lines_empty();
        }
        Writer { out: Vec::new() }
    }

    /// Appends `lines`, a run of well-formed response lines, to the output.
    fn push_lines(&mut self, line: &mut Vec<u8>)
        requires
            response_lines(old(line)@),
        ensures
            final(self)@ == old(self)@ + old(line)@,
            final(line)@ == Seq::<u8>::empty(),
    {
        proof {
            use_type_invariant(&*self);
            lemma_response_lines_concat(self.out@, line@);
            lemma_response_lines_empty();
        }
        let mut out: Vec<u8> = Vec::new();
        std::mem::swap(&mut out, &mut self.out);
        out.append(line);
        self.out = out;
    }

    /// Sends "OK", with `msg` when given.
    pub fn ok(&mut self, msg: Option<&str>)
        ensures
            final(self)@ == old(self)@ + ok_line(
                match msg {
                    Some(m) => Some(m.spec_bytes()),
                    None => None,
                },
            ),
    {
        let mut line: Vec<u8> = Vec::new();
        line.push(0x4f);
        line.push(0x4b);
        match msg {
            Some(m) => {
                line.push(0x20);
                push_line_text(&mut line, m.as_bytes(), MAX_RESPONSE_LINE - 4);
            },
            None => {},
        }
        line.push(10);
        let ghost bytes = match msg {
            Some(m) => Some(m.spec_bytes()),
            None => None,
        };
        assert(line@ =~= ok_line(bytes));
        proof {
            lemma_ok_line(bytes);
        }
        proof {
            lemma_response_line(line@);
        }
        self.push_lines(&mut line);
    }

    /// Sends "ERR" with an error code and a message.
    pub fn err(&mut self, code: u32, msg: &str)
        ensures
            final(self)@ == old(self)@ + err_line(code, msg.spec_bytes()),
    {
        let mut line: Vec<u8> = Vec::new();
        line.push(0x45);
        line.push(0x52);
        line.push(0x52);
        line.push(0x20);
        push_decimal(&mut line, code);
        proof {
            lemma_decimal_u32(code);
        }
        let room = MAX_RESPONSE_LINE - 6 - (line.len() - 4);
        line.push(0x20);
        push_line_text(&mut line, msg.as_bytes(), room);
        line.push(10);
        assert(line@ =~= err_line(code, msg.spec_bytes()));
        proof {
            lemma_err_line(code, msg.spec_bytes());
        }
        proof {
            lemma_response_line(line@);
        }
        self.push_lines(&mut line);
    }

    /// Sends an "S" status line.
    pub fn status(&mut self, keyword: &str)
        ensures
            final(self)@ == old(self)@ + status_line(keyword.spec_bytes()),
    {
        let mut line: Vec<u8> = Vec::new();
        line.push(0x53);
        line.push(0x20);
        push_line_text(&mut line, keyword.as_bytes(), MAX_RESPONSE_LINE - 3);
        line.push(10);
        assert(line@ =~= status_line(keyword.spec_bytes()));
        proof {
            lemma_status_line(keyword.spec_bytes());
        }
        proof {
            lemma_response_line(line@);
        }
        self.push_lines(&mut line);
    }

    /// Sends `data` as one or more "D" lines, escaping as Assuan requires.
    /// The escaped copy is wiped once written.
    pub fn data(&mut self, data: &[u8])
        ensures
            final(self)@ == old(self)@ + data_lines(data@),
    {
        let mut encoded: Vec<u8> = Vec::new();
        percent_encode_into(data, &mut encoded);
        let ghost e = encoded@;
        assert(e =~= percent_encoded(data@));
        assert(e.skip(0) =~= e);
        let mut lines: Vec<u8> = Vec::new();
        let mut pos: usize = 0;
        while pos < encoded.len()
            invariant
                e == encoded@,
                pos <= e.len(),
                lines@ + data_lines_of(e.skip(pos as int)) == data_lines_of(e),
            decreases e.len() - pos,
        {
            let ghost rest = e.skip(pos as int);
            let remaining = encoded.len() - pos;
            let mut cut = if remaining < MAX_DATA_PER_LINE {
                remaining
            } else {
                MAX_DATA_PER_LINE
            };
            // Never split inside a %XX escape.
            if cut < remaining {
                if encoded[pos + cut - 2] == 0x25 {
                    cut = cut - 2;
                } else if encoded[pos + cut - 1] == 0x25 {
                    cut = cut - 1;
                }
            }
            assert(cut == data_cut(rest));
            let ghost before = lines@;
            lines.push(0x44);
            lines.push(0x20);
            push_range(&mut lines, encoded.as_slice(), pos, pos + cut);
            lines.push(10);
            assert(rest.take(cut as int) =~= e.subrange(pos as int, pos + cut));
            assert(lines@ =~= before + data_line(rest.take(cut as int)));
            assert(rest.skip(cut as int) =~= e.skip(pos + cut));
            pos = pos + cut;
        }
        assert(e.skip(pos as int) =~= Seq::<u8>::empty());
        proof {
            lemma_data_lines(data@);
        }
        wipe(&mut encoded);
        self.push_lines(&mut lines);
        wipe(&mut lines);
    }

    /// Hands over the composed lines, leaving the writer empty. They are a
    /// run of well-formed response lines.
    pub fn take_output(&mut self) -> (bytes: Vec<u8>)
        ensures
            bytes@ == old(self)@,
            final(self)@ == Seq::<u8>::empty(),
            response_lines(bytes@),
    {
        proof {
            use_type_invariant(&*self);
            lemma_response_lines_empty();
        }
        let mut bytes: Vec<u8> = Vec::new();
        std::mem::swap(&mut bytes, &mut self.out);
        bytes
    }
}

/// A request line made of a command without spaces, one space, and an
/// argument that does not start with a space (nor end with a carriage
/// return), then a newline, splits into exactly that command and argument.
pub proof fn lemma_split_parts(cmd: Seq<u8>, arg: Seq<u8>)
    requires
        forall|i: int| 0 <= i < cmd.len() ==> #[trigger] cmd[i] != 32,
        arg.len() > 0 ==> arg[0] != 32 && arg.last() != 13,
    ensures
        command_bytes(cmd + seq![32u8] + arg + seq![10u8]) == cmd,
        argument_bytes(cmd + seq![32u8] + arg + seq![10u8]) == arg,
{
    let line = cmd + seq![32u8] + arg + seq![10u8];
    let body = cmd + seq![32u8] + arg;
    assert(line.drop_last() =~= body);
    assert(without_suffix(line, 10) == body);
    if arg.len() > 0 {
        assert(body.last() == arg.last());
    } else {
        assert(body.last() == 32);
    }
    assert(line_body(line) == body);
    lemma_first_index(body, 32, true, cmd.len() as int);
    assert(body.take(cmd.len() as int) =~= cmd);
    let rest = body.skip(cmd.len() as int + 1);
    assert(rest =~= arg);
    lemma_first_index(rest, 32, false, 0);
    assert(rest.skip(0) =~= arg);
}

/// Bytes without a `%` decode to themselves.
pub proof fn lemma_decode_plain(s: Seq<u8>)
    requires
        forall|i: int| 0 <= i < s.len() ==> #[trigger] s[i] != 0x25,
    ensures
        percent_decoded(s) == s,
    decreases s.len(),
{
    if s.len() > 0 {
        lemma_decode_plain(s.skip(1));
        assert(seq![s[0]] + s.skip(1) =~= s);
    }
}

/// `%` followed by two hex digits decodes to the byte they spell.
pub proof fn lemma_decode_escape(hi: u8, lo: u8, rest: Seq<u8>)
    requires
        is_hex_digit(hi),
        is_hex_digit(lo),
    ensures
        percent_decoded(seq![0x25u8, hi, lo] + rest) == seq![(16 * hex_value(hi) + hex_value(lo)) as u8]
            + percent_decoded(rest),
{
    let s = seq![0x25u8, hi, lo] + rest;
    assert(s.skip(3) =~= rest);
}

/// A label without underscores is kept as it is; `__` stands for one
/// underscore, and a lone underscore before another character is dropped.
pub proof fn lemma_mnemonics(s: Seq<char>, c: char)
    ensures
        (forall|i: int| 0 <= i < s.len() ==> #[trigger] s[i] != '_') ==> mnemonic_free(s) == s,
        mnemonic_free(seq!['_', '_'] + s) == seq!['_'] + mnemonic_free(s),
        c != '_' ==> mnemonic_free(seq!['_', c] + s) == seq![c] + mnemonic_free(s),
    decreases s.len(),
{
    if s.len() > 0 {
        lemma_mnemonics(s.skip(1), c);
        if forall|i: int| 0 <= i < s.len() ==> #[trigger] s[i] != '_' {
            assert(forall|i: int| 0 <= i < s.skip(1).len() ==> #[trigger] s.skip(1)[i] == s[i + 1]);
            assert(seq![s[0]] + s.skip(1) =~= s);
        }
    }
    assert((seq!['_', '_'] + s).skip(2) =~= s);
    let t = seq!['_', c] + s;
    let u = seq![c] + s;
    assert(t[0] == '_' && t[1] == c && t.len() >= 2);
    assert(t.skip(1) =~= u);
    assert(u[0] == c);
    assert(u.skip(1) =~= s);
    if c != '_' {
        assert(mnemonic_free(u) == seq![c] + mnemonic_free(u.skip(1)));
        assert(mnemonic_free(t) == mnemonic_free(t.skip(1)));
    }
}

/// Stripping hidden characters works character by character: it removes
/// the hidden ones and keeps the others, in order.
pub proof fn lemma_without_hidden_concat(a: Seq<char>, b: Seq<char>)
    ensures
        without_hidden(a + b) == without_hidden(a) + without_hidden(b),
    decreases b.len(),
{
    if b.len() > 0 {
        lemma_without_hidden_concat(a, b.drop_last());
        assert((a + b).drop_last() =~= a + b.drop_last());
        assert((a + b).last() == b.last());
    } else {
        assert(a + b =~= a);
        assert(without_hidden(a) + without_hidden(b) =~= without_hidden(a));
    }
}

/// A message without control bytes that fits is sent as it is.
pub proof fn lemma_line_text_keeps(msg: Seq<u8>, room: int)
    requires
        msg.len() <= room,
        forall|i: int| 0 <= i < msg.len() ==> !is_control_byte(#[trigger] msg[i]),
    ensures
        line_text(msg, room) == msg,
        msg.len() + 4 <= MAX_RESPONSE_LINE ==> ok_line(Some(msg)) == seq![0x4fu8, 0x4bu8, 0x20u8]
            + msg + seq![10u8],
        msg.len() + 3 <= MAX_RESPONSE_LINE ==> status_line(msg) == seq![0x53u8, 0x20u8] + msg
            + seq![10u8],
    decreases msg.len(),
{
    lemma_without_control_keeps(msg);
}

proof fn lemma_without_control_keeps(msg: Seq<u8>)
    requires
        forall|i: int| 0 <= i < msg.len() ==> !is_control_byte(#[trigger] msg[i]),
    ensures
        without_control_bytes(msg) == msg,
    decreases msg.len(),
{
    if msg.len() > 0 {
        assert(forall|i: int|
            0 <= i < msg.drop_last().len() ==> #[trigger] msg.drop_last()[i] == msg[i]);
        lemma_without_control_keeps(msg.drop_last());
        assert(msg.drop_last().push(msg.last()) =~= msg);
    }
}

/// Bytes that are neither `%` nor control bytes travel in "D" lines as
/// they are; `%` and control bytes travel as `%` and two upper-case hex
/// digits.
pub proof fn lemma_encode_plain(d: Seq<u8>, b: u8)
    ensures
        (forall|i: int| 0 <= i < d.len() ==> #[trigger] d[i] >= 0x20 && d[i] != 0x25)
            ==> percent_encoded(d) == d,
        (b < 0x20 || b == 0x25) ==> percent_encoded(seq![b]) == seq![
            0x25u8,
            (if b / 16 < 10 {
                0x30 + b / 16
            } else {
                0x41 + b / 16 - 10
            }) as u8,
            (if b % 16 < 10 {
                0x30 + b % 16
            } else {
                0x41 + b % 16 - 10
            }) as u8,
        ],
    decreases d.len(),
{
    if d.len() > 0 {
        if forall|i: int| 0 <= i < d.len() ==> #[trigger] d[i] >= 0x20 && d[i] != 0x25 {
            assert(forall|i: int|
                0 <= i < d.drop_last().len() ==> #[trigger] d.drop_last()[i] == d[i]);
            lemma_encode_plain(d.drop_last(), b);
            assert(d.drop_last() + seq![d.last()] =~= d);
        }
    } else {
        assert(percent_encoded(d) =~= d);
    }
    assert(seq![b].drop_last() =~= Seq::<u8>::empty());
    assert(percent_encoded(seq![b].drop_last()) =~= Seq::<u8>::empty());
}

} // verus!
