//! Byte-level building blocks shared by the three PDU kinds.
//!
//! Every PDU is a line of UTF-8 text. Its structure is carried entirely by
//! three ASCII bytes (`|`, `\r`, `\n`), so the grammar is stated over the
//! UTF-8 encoding of a string (`str::spec_bytes`). An ASCII byte never occurs
//! inside the encoding of a non-ASCII character, so cutting a string at one of
//! these bytes always yields valid strings again.
use vstd::prelude::*;
use vstd::string::*;
use vstd::utf8::*;

verus! {

/// The field delimiter `|`.
pub const PIPE: u8 = 0x7c;

/// Carriage return, the first byte of the line terminator.
pub const CR: u8 = 0x0d;

/// Line feed, the last byte of the line terminator.
pub const LF: u8 = 0x0a;

/// The ASCII digit zero.
pub const ZERO: u8 = 0x30;

/// The line terminator `\r\n`.
pub open spec fn crlf() -> Seq<u8> {
    seq![CR, LF]
}

/// A field that may carry neither a delimiter nor a line break.
pub open spec fn no_field_breaks(s: Seq<u8>) -> bool {
    !s.contains(PIPE) && !s.contains(CR) && !s.contains(LF)
}

/// A field that may carry delimiters but no line break.
pub open spec fn no_line_breaks(s: Seq<u8>) -> bool {
    !s.contains(CR) && !s.contains(LF)
}

/// Whether `s` ends with `\r\n`.
pub open spec fn ends_with_crlf(s: Seq<u8>) -> bool {
    s.len() >= 2 && s[s.len() - 2] == CR && s[s.len() - 1] == LF
}

/// `s` with every trailing `\r\n` removed.
pub open spec fn strip_crlf(s: Seq<u8>) -> Seq<u8>
    decreases s.len(),
{
    if ends_with_crlf(s) {
        strip_crlf(s.take(s.len() - 2))
    } else {
        s
    }
}

/// Index of the first occurrence of `x` in `s`, or `s.len()` when there is none.
pub open spec fn first_index_of(s: Seq<u8>, x: u8) -> int
    decreases s.len(),
{
    if s.len() == 0 {
        0
    } else if s[0] == x {
        0
    } else {
        1 + first_index_of(s.drop_first(), x)
    }
}

/// An ASCII decimal digit.
pub open spec fn is_digit(b: u8) -> bool {
    ZERO <= b <= 0x39
}

/// Every byte of `s` is a decimal digit.
pub open spec fn all_digits(s: Seq<u8>) -> bool {
    forall|i: int| 0 <= i < s.len() ==> is_digit(#[trigger] s[i])
}

/// The number written by the decimal digits `s` (the empty sequence is zero).
pub open spec fn decimal_value(s: Seq<u8>) -> nat
    decreases s.len(),
{
    if s.len() == 0 {
        0
    } else {
        decimal_value(s.drop_last()) * 10 + (s.last() - ZERO) as nat
    }
}

/// The status code written in `s`: one to three ASCII decimal digits.
pub open spec fn spec_parse_status_code(s: Seq<u8>) -> Option<u16> {
    if 1 <= s.len() <= 3 && all_digits(s) {
        Some(decimal_value(s) as u16)
    } else {
        None
    }
}

/// The shortest decimal representation of `n`.
pub open spec fn spec_decimal(n: nat) -> Seq<u8>
    decreases n,
{
    if n < 10 {
        seq![(ZERO + n) as u8]
    } else {
        spec_decimal(n / 10) + seq![(ZERO + n % 10) as u8]
    }
}

/// Why a line could not be cut into its fields.
#[derive(Debug, PartialEq, Eq, Clone, Copy, Structural)]
pub enum FrameError {
    /// The line does not end with `\r\n`.
    MissingCrlf,
    /// The line does not hold the delimiters that its layout needs.
    Malformed,
}

/// A three-field line: `A|B|C\r\n`, the third field running to the end of
/// the line (it may hold further `|`). Mirrors `trim_end_matches("\r\n")`
/// followed by `splitn(3, '|')`.
pub open spec fn spec_split_three(raw: Seq<u8>) -> Result<(Seq<u8>, Seq<u8>, Seq<u8>), FrameError> {
    if !ends_with_crlf(raw) {
        Err(FrameError::MissingCrlf)
    } else {
        let t = strip_crlf(raw);
        let i = first_index_of(t, PIPE);
        if i == t.len() {
            Err(FrameError::Malformed)
        } else {
            let rest = t.skip(i + 1);
            let j = first_index_of(rest, PIPE);
            if j == rest.len() {
                Err(FrameError::Malformed)
            } else {
                Ok((t.take(i), rest.take(j), rest.skip(j + 1)))
            }
        }
    }
}

/// A two-field line: `A|B\r\n` with exactly one delimiter. Mirrors
/// `trim_end_matches("\r\n")` followed by `split('|')` into exactly two parts.
pub open spec fn spec_split_two(raw: Seq<u8>) -> Result<(Seq<u8>, Seq<u8>), FrameError> {
    if !ends_with_crlf(raw) {
        Err(FrameError::MissingCrlf)
    } else {
        let t = strip_crlf(raw);
        let i = first_index_of(t, PIPE);
        if i == t.len() || t.skip(i + 1).contains(PIPE) {
            Err(FrameError::Malformed)
        } else {
            Ok((t.take(i), t.skip(i + 1)))
        }
    }
}

/// The line `a|b|c\r\n`.
pub open spec fn spec_join_three(a: Seq<u8>, b: Seq<u8>, c: Seq<u8>) -> Seq<u8> {
    a + seq![PIPE] + b + seq![PIPE] + c + crlf()
}

/// The line `a|b\r\n`.
pub open spec fn spec_join_two(a: Seq<u8>, b: Seq<u8>) -> Seq<u8> {
    a + seq![PIPE] + b + crlf()
}

// ----------------------------------------------------------------------------
// Lemmas
// ----------------------------------------------------------------------------

/// The UTF-8 encoding of a concatenation is the concatenation of the encodings.
pub proof fn lemma_encode_concat(a: Seq<char>, b: Seq<char>)
    ensures
        encode_utf8(a + b) == encode_utf8(a) + encode_utf8(b),
    decreases a.len(),
{
    if a.len() == 0 {
        assert(a + b =~= b);
        assert(encode_utf8(a) =~= Seq::<u8>::empty());
        assert(encode_utf8(a) + encode_utf8(b) =~= encode_utf8(b));
    } else {
        assert((a + b).drop_first() =~= a.drop_first() + b);
        lemma_encode_concat(a.drop_first(), b);
        assert((a + b)[0] == a[0]);
        assert(encode_utf8(a + b) =~= encode_utf8(a) + encode_utf8(b));
    }
}

/// The encoding of an ASCII text is the text itself, byte for byte.
pub proof fn lemma_ascii_encoding(s: Seq<char>)
    requires
        is_ascii_chars(s),
    ensures
        encode_utf8(s).len() == s.len(),
        forall|i: int| 0 <= i < s.len() ==> encode_utf8(s)[i] == #[trigger] s[i] as u8,
{
    is_ascii_chars_encode_utf8(s);
}

/// Characterises `first_index_of` by the position it returns.
pub proof fn lemma_first_index_of_at(s: Seq<u8>, x: u8, i: int)
    requires
        0 <= i <= s.len(),
        forall|j: int| 0 <= j < i ==> s[j] != x,
        i == s.len() || s[i] == x,
    ensures
        first_index_of(s, x) == i,
    decreases i,
{
    if i > 0 {
        assert(s[0] != x);
        lemma_first_index_of_at(s.drop_first(), x, i - 1);
    }
}

/// `first_index_of` points at the first occurrence, or at the end when there is none.
pub proof fn lemma_first_index_of_props(s: Seq<u8>, x: u8)
    ensures
        0 <= first_index_of(s, x) <= s.len(),
        first_index_of(s, x) < s.len() ==> s[first_index_of(s, x)] == x,
        forall|j: int| 0 <= j < first_index_of(s, x) ==> s[j] != x,
        (first_index_of(s, x) == s.len()) == !s.contains(x),
    decreases s.len(),
{
    if s.len() > 0 && s[0] != x {
        lemma_first_index_of_props(s.drop_first(), x);
        let f = first_index_of(s, x);
        assert forall|j: int| 0 <= j < f implies s[j] != x by {
            if j > 0 {
                assert(s[j] == s.drop_first()[j - 1]);
            }
        }
        if f == s.len() {
            assert forall|j: int| 0 <= j < s.len() implies s[j] != x by {}
        } else {
            assert(s[f] == s.drop_first()[f - 1]);
        }
    }
}

/// Appending `\r\n` to a text that does not end with `\r\n` and then stripping gives the text back.
pub proof fn lemma_strip_crlf_append(s: Seq<u8>)
    requires
        !ends_with_crlf(s),
    ensures
        strip_crlf(s + crlf()) == s,
{
    let t = s + crlf();
    assert(ends_with_crlf(t));
    assert(t.take(t.len() - 2) =~= s);
    assert(strip_crlf(s) == s);
}

/// A value written by `spec_decimal` is made of digits and reads back as the same number.
pub proof fn lemma_decimal_value(n: nat)
    ensures
        spec_decimal(n).len() >= 1,
        all_digits(spec_decimal(n)),
        decimal_value(spec_decimal(n)) == n,
    decreases n,
{
    if n >= 10 {
        lemma_decimal_value(n / 10);
        let d = spec_decimal(n / 10);
        let s = d + seq![(ZERO + n % 10) as u8];
        assert(s.drop_last() =~= d);
        assert(s.last() == (ZERO + n % 10) as u8);
        assert((s.last() - ZERO) as nat == n % 10);
        assert(decimal_value(s) == decimal_value(d) * 10 + n % 10);
        assert(n == (n / 10) * 10 + n % 10) by (nonlinear_arith);
        assert(decimal_value(s) == n);
        assert(spec_decimal(n) == s);
        assert forall|i: int| 0 <= i < s.len() implies is_digit(#[trigger] s[i]) by {
            if i < d.len() {
                assert(s[i] == d[i]);
            }
        }
    } else {
        let s = spec_decimal(n);
        assert(s.drop_last() =~= Seq::<u8>::empty());
        assert(decimal_value(s.drop_last()) == 0);
        assert(s.last() == (ZERO + n) as u8);
        assert(decimal_value(s) == n);
    }
}

/// The decimal form of a number below 1000 has at most three digits.
pub proof fn lemma_decimal_len(n: nat)
    ensures
        n < 10 ==> spec_decimal(n).len() == 1,
        10 <= n < 100 ==> spec_decimal(n).len() == 2,
        100 <= n < 1000 ==> spec_decimal(n).len() == 3,
{
    if 10 <= n < 1000 {
        let m = n / 10;
        assert(spec_decimal(n).len() == spec_decimal(m).len() + 1);
        if n >= 100 {
            assert(10 <= m < 100);
            assert(m / 10 < 10);
            assert(spec_decimal(m).len() == spec_decimal(m / 10).len() + 1);
            assert(spec_decimal(m / 10).len() == 1);
        } else {
            assert(m < 10);
            assert(spec_decimal(m).len() == 1);
        }
    }
}

/// At most three decimal digits write a number below 1000.
pub proof fn lemma_decimal_value_bound(s: Seq<u8>)
    requires
        all_digits(s),
        s.len() <= 3,
    ensures
        decimal_value(s) <= 999,
        s.len() <= 2 ==> decimal_value(s) <= 99,
        s.len() <= 1 ==> decimal_value(s) <= 9,
    decreases s.len(),
{
    if s.len() > 0 {
        let t = s.drop_last();
        assert(all_digits(t)) by {
            assert forall|i: int| 0 <= i < t.len() implies is_digit(#[trigger] t[i]) by {
                assert(t[i] == s[i]);
            }
        }
        lemma_decimal_value_bound(t);
        assert(is_digit(s[s.len() - 1]));
    }
}

/// An ASCII byte of a valid encoding starts a character, and so does the byte after it.
pub proof fn lemma_ascii_boundaries(bytes: Seq<u8>, i: int)
    requires
        valid_utf8(bytes),
        0 <= i < bytes.len(),
        bytes[i] < 0x80,
    ensures
        is_char_boundary(bytes, i),
        is_char_boundary(bytes, i + 1),
{
    is_char_boundary_iff_not_is_continuation_byte(bytes, i);
    if i + 1 == bytes.len() {
        is_char_boundary_start_end_of_seq(bytes);
    } else {
        valid_utf8_split(bytes, i);
        let part = bytes.subrange(i, bytes.len() as int);
        assert(part[0] == bytes[i]);
        let rest = pop_first_scalar(part);
        assert(rest =~= bytes.subrange(i + 1, bytes.len() as int));
        assert(valid_utf8(rest));
        assert(rest.len() > 0);
        assert(rest[0] == bytes[i + 1]);
        assert(!is_continuation_byte(bytes[i + 1]));
        is_char_boundary_iff_not_is_continuation_byte(bytes, i + 1);
    }
}

/// Cutting a line written by `spec_join_three` gives its three fields back.
pub proof fn lemma_split_three_join(a: Seq<u8>, b: Seq<u8>, c: Seq<u8>)
    requires
        !a.contains(PIPE),
        !b.contains(PIPE),
        no_line_breaks(c),
    ensures
        spec_split_three(spec_join_three(a, b, c)) == Ok::<_, FrameError>((a, b, c)),
{
    let body = a + seq![PIPE] + b + seq![PIPE] + c;
    assert(spec_join_three(a, b, c) =~= body + crlf());
    if c.len() > 0 {
        assert(body.last() == c.last());
    }
    assert(!ends_with_crlf(body));
    lemma_strip_crlf_append(body);
    let line = spec_join_three(a, b, c);
    assert(line[line.len() - 2] == CR);
    assert(ends_with_crlf(line));
    assert(strip_crlf(line) == body);
    lemma_first_index_of_at(body, PIPE, a.len() as int);
    let rest = body.skip(a.len() as int + 1);
    assert(rest =~= b + seq![PIPE] + c);
    lemma_first_index_of_at(rest, PIPE, b.len() as int);
    assert(body.take(a.len() as int) =~= a);
    assert(rest.take(b.len() as int) =~= b);
    assert(rest.skip(b.len() as int + 1) =~= c);
}

/// A line that `spec_split_three` accepts is its trimmed body, rejoined.
pub proof fn lemma_split_three_shape(raw: Seq<u8>)
    requires
        spec_split_three(raw) is Ok,
    ensures
        ({
            let (a, b, c) = spec_split_three(raw)->Ok_0;
            &&& !a.contains(PIPE)
            &&& !b.contains(PIPE)
            &&& spec_join_three(a, b, c) == strip_crlf(raw) + crlf()
        }),
{
    let t = strip_crlf(raw);
    lemma_first_index_of_props(t, PIPE);
    let i = first_index_of(t, PIPE);
    let rest = t.skip(i + 1);
    lemma_first_index_of_props(rest, PIPE);
    let j = first_index_of(rest, PIPE);
    let (a, b, c) = spec_split_three(raw)->Ok_0;
    assert(a =~= t.take(i));
    assert(b =~= rest.take(j));
    assert(c =~= rest.skip(j + 1));
    assert(!a.contains(PIPE)) by {
        assert forall|k: int| 0 <= k < a.len() implies a[k] != PIPE by {
            assert(a[k] == t[k]);
        }
    }
    assert(!b.contains(PIPE)) by {
        assert forall|k: int| 0 <= k < b.len() implies b[k] != PIPE by {
            assert(b[k] == rest[k]);
        }
    }
    assert(rest =~= b + seq![PIPE] + c);
    assert(t =~= a + seq![PIPE] + rest);
    assert(spec_join_three(a, b, c) =~= t + crlf());
}

/// Cutting a line written by `spec_join_two` gives its two fields back.
pub proof fn lemma_split_two_join(a: Seq<u8>, b: Seq<u8>)
    requires
        !a.contains(PIPE),
        no_field_breaks(b),
    ensures
        spec_split_two(spec_join_two(a, b)) == Ok::<_, FrameError>((a, b)),
{
    let body = a + seq![PIPE] + b;
    let line = spec_join_two(a, b);
    assert(line =~= body + crlf());
    if b.len() > 0 {
        assert(body.last() == b.last());
    }
    assert(!ends_with_crlf(body));
    lemma_strip_crlf_append(body);
    assert(line[line.len() - 2] == CR);
    assert(ends_with_crlf(line));
    lemma_first_index_of_at(body, PIPE, a.len() as int);
    assert(body.take(a.len() as int) =~= a);
    assert(body.skip(a.len() as int + 1) =~= b);
}

/// A line that `spec_split_two` accepts is its trimmed body, rejoined.
pub proof fn lemma_split_two_shape(raw: Seq<u8>)
    requires
        spec_split_two(raw) is Ok,
    ensures
        ({
            let (a, b) = spec_split_two(raw)->Ok_0;
            &&& !a.contains(PIPE)
            &&& !b.contains(PIPE)
            &&& spec_join_two(a, b) == strip_crlf(raw) + crlf()
        }),
{
    let t = strip_crlf(raw);
    lemma_first_index_of_props(t, PIPE);
    let i = first_index_of(t, PIPE);
    let (a, b) = spec_split_two(raw)->Ok_0;
    assert(a =~= t.take(i));
    assert(b =~= t.skip(i + 1));
    assert(!a.contains(PIPE)) by {
        assert forall|k: int| 0 <= k < a.len() implies a[k] != PIPE by {
            assert(a[k] == t[k]);
        }
    }
    assert(t =~= a + seq![PIPE] + b);
    assert(spec_join_two(a, b) =~= t + crlf());
}

// ----------------------------------------------------------------------------
// Executable helpers
// ----------------------------------------------------------------------------

/// Whether `x` occurs in `b`.
pub fn contains_byte(b: &[u8], x: u8) -> (r: bool)
    ensures
        r == b@.contains(x),
{
    let mut i: usize = 0;
    while i < b.len()
        invariant
            i <= b.len(),
            forall|j: int| 0 <= j < i ==> b@[j] != x,
        decreases b.len() - i,
    {
        if b[i] == x {
            assert(b@[i as int] == x);
            return true;
        }
        i = i + 1;
    }
    false
}

/// Whether `a` and `b` hold the same bytes.
pub fn bytes_eq(a: &[u8], b: &[u8]) -> (r: bool)
    ensures
        r == (a@ == b@),
{
    if a.len() != b.len() {
        return false;
    }
    let mut i: usize = 0;
    while i < a.len()
        invariant
            i <= a.len(),
            a.len() == b.len(),
            forall|j: int| 0 <= j < i ==> a@[j] == b@[j],
        decreases a.len() - i,
    {
        if a[i] != b[i] {
            return false;
        }
        i = i + 1;
    }
    assert(a@ =~= b@);
    true
}

/// Whether `b` holds a delimiter or a line break.
pub fn has_field_breaks(b: &[u8]) -> (r: bool)
    ensures
        r == !no_field_breaks(b@),
{
    contains_byte(b, PIPE) || contains_byte(b, CR) || contains_byte(b, LF)
}

/// Whether `b` holds a line break.
pub fn has_line_breaks(b: &[u8]) -> (r: bool)
    ensures
        r == !no_line_breaks(b@),
{
    contains_byte(b, CR) || contains_byte(b, LF)
}

/// Index of the first `x` in `b`, or `b.len()` when there is none.
pub fn find_byte(b: &[u8], x: u8) -> (r: usize)
    ensures
        r == first_index_of(b@, x),
{
    let mut i: usize = 0;
    while i < b.len()
        invariant
            i <= b.len(),
            forall|j: int| 0 <= j < i ==> b@[j] != x,
        decreases b.len() - i,
    {
        if b[i] == x {
            proof {
                lemma_first_index_of_at(b@, x, i as int);
            }
            return i;
        }
        i = i + 1;
    }
    proof {
        lemma_first_index_of_at(b@, x, i as int);
    }
    i
}

/// Whether `b` ends with `\r\n`.
pub fn ends_with_crlf_bytes(b: &[u8]) -> (r: bool)
    ensures
        r == ends_with_crlf(b@),
{
    let n = b.len();
    n >= 2 && b[n - 2] == CR && b[n - 1] == LF
}

/// `s` without its trailing `\r\n` terminators (as `trim_end_matches("\r\n")`).
pub fn strip_trailing_crlf<'a>(s: &'a str) -> (t: &'a str)
    ensures
        t.spec_bytes() == strip_crlf(s.spec_bytes()),
{
    let b = s.as_bytes();
    let ghost bytes = s.spec_bytes();
    let mut end: usize = b.len();
    assert(bytes.take(end as int) =~= bytes);
    while end >= 2 && b[end - 2] == CR && b[end - 1] == LF
        invariant
            b@ == bytes,
            end <= b.len(),
            end < b.len() ==> bytes[end as int] == CR,
            strip_crlf(bytes.take(end as int)) == strip_crlf(bytes),
        decreases end,
    {
        assert(ends_with_crlf(bytes.take(end as int)));
        assert(bytes.take(end as int).take(end - 2) =~= bytes.take(end - 2));
        end = end - 2;
    }
    proof {
        assert(!ends_with_crlf(bytes.take(end as int)));
        encode_utf8_valid_utf8(s@);
        if end == b.len() {
            is_char_boundary_start_end_of_seq(bytes);
        } else {
            lemma_ascii_boundaries(bytes, end as int);
        }
    }
    let (head, _) = s.split_at(end);
    head
}

/// Cuts `s` around the ASCII byte at `i`, dropping that byte.
pub fn split_around<'a>(s: &'a str, i: usize) -> (r: (&'a str, &'a str))
    requires
        i < s.spec_bytes().len(),
        s.spec_bytes()[i as int] < 0x80,
    ensures
        r.0.spec_bytes() == s.spec_bytes().take(i as int),
        r.1.spec_bytes() == s.spec_bytes().skip(i + 1),
{
    proof {
        encode_utf8_valid_utf8(s@);
        lemma_ascii_boundaries(s.spec_bytes(), i as int);
    }
    let b = s.as_bytes();
    let n: usize = b.len();
    assert(i < n);
    let (head, _) = s.split_at(i);
    let (_, tail) = s.split_at(i + 1);
    (head, tail)
}

/// The status code written in `b`, if `b` is one to three decimal digits.
pub fn parse_status_code(b: &[u8]) -> (r: Option<u16>)
    ensures
        r == spec_parse_status_code(b@),
{
    if b.len() == 0 || b.len() > 3 {
        return None;
    }
    let mut value: u16 = 0;
    let mut i: usize = 0;
    while i < b.len()
        invariant
            i <= b.len() <= 3,
            all_digits(b@.take(i as int)),
            value as nat == decimal_value(b@.take(i as int)),
        decreases b.len() - i,
    {
        let c = b[i];
        if c < ZERO || c > 0x39 {
            assert(!is_digit(b@[i as int]));
            return None;
        }
        let ghost next = b@.take(i + 1);
        proof {
            assert(next.drop_last() =~= b@.take(i as int));
            assert(next.last() == c);
            assert forall|j: int| 0 <= j < next.len() implies is_digit(#[trigger] next[j]) by {
                if j < i {
                    assert(next[j] == b@.take(i as int)[j]);
                }
            }
            lemma_decimal_value_bound(next);
            lemma_decimal_value_bound(b@.take(i as int));
        }
        value = value * 10 + (c - ZERO) as u16;
        i = i + 1;
    }
    assert(b@.take(i as int) =~= b@);
    Some(value)
}

/// Cuts a line `A|B|C\r\n` into its three fields (see `spec_split_three`).
pub fn split_three<'a>(raw: &'a str) -> (r: Result<(&'a str, &'a str, &'a str), FrameError>)
    ensures
        match r {
            Ok((a, b, c)) => spec_split_three(raw.spec_bytes()) == Ok::<_, FrameError>(
                (a.spec_bytes(), b.spec_bytes(), c.spec_bytes()),
            ),
            Err(e) => spec_split_three(raw.spec_bytes()) == Err::<(Seq<u8>, Seq<u8>, Seq<u8>), _>(e),
        },
{
    if !ends_with_crlf_bytes(raw.as_bytes()) {
        return Err(FrameError::MissingCrlf);
    }
    let t = strip_trailing_crlf(raw);
    let tb = t.as_bytes();
    let i = find_byte(tb, PIPE);
    proof {
        lemma_first_index_of_props(tb@, PIPE);
    }
    if i == tb.len() {
        return Err(FrameError::Malformed);
    }
    let (a, rest) = split_around(t, i);
    let rb = rest.as_bytes();
    let j = find_byte(rb, PIPE);
    proof {
        lemma_first_index_of_props(rb@, PIPE);
    }
    if j == rb.len() {
        return Err(FrameError::Malformed);
    }
    let (b, c) = split_around(rest, j);
    assert(rest.spec_bytes().take(j as int) == b.spec_bytes());
    Ok((a, b, c))
}

/// Cuts a line `A|B\r\n` with exactly one delimiter into its two fields
/// (see `spec_split_two`).
pub fn split_two<'a>(raw: &'a str) -> (r: Result<(&'a str, &'a str), FrameError>)
    ensures
        match r {
            Ok((a, b)) => spec_split_two(raw.spec_bytes()) == Ok::<_, FrameError>(
                (a.spec_bytes(), b.spec_bytes()),
            ),
            Err(e) => spec_split_two(raw.spec_bytes()) == Err::<(Seq<u8>, Seq<u8>), _>(e),
        },
{
    if !ends_with_crlf_bytes(raw.as_bytes()) {
        return Err(FrameError::MissingCrlf);
    }
    let t = strip_trailing_crlf(raw);
    let tb = t.as_bytes();
    let i = find_byte(tb, PIPE);
    proof {
        lemma_first_index_of_props(tb@, PIPE);
    }
    if i == tb.len() {
        return Err(FrameError::Malformed);
    }
    let (a, b) = split_around(t, i);
    if contains_byte(b.as_bytes(), PIPE) {
        return Err(FrameError::Malformed);
    }
    Ok((a, b))
}

/// Appends `t` to `s`.
pub fn push_text(s: &mut String, t: &str)
    ensures
        final(s)@ == old(s)@ + t@,
        encode_utf8(final(s)@) == encode_utf8(old(s)@) + t.spec_bytes(),
{
    let ghost before = s@;
    s.append(t);
    proof {
        lemma_encode_concat(before, t@);
    }
}

/// Appends the delimiter `|` to `s`.
pub fn push_pipe(s: &mut String)
    ensures
        encode_utf8(final(s)@) == encode_utf8(old(s)@) + seq![PIPE],
{
    let lit = "|";
    proof {
        reveal_strlit("|");
        lemma_ascii_encoding(lit@);
        assert(lit.spec_bytes() =~= seq![PIPE]);
    }
    push_text(s, lit);
}

/// Appends the line terminator `\r\n` to `s`.
pub fn push_crlf(s: &mut String)
    ensures
        encode_utf8(final(s)@) == encode_utf8(old(s)@) + crlf(),
{
    let lit = "\r\n";
    proof {
        reveal_strlit("\r\n");
        assert(lit@.len() == 2);
        assert(lit@[0] == '\r' && lit@[1] == '\n');
        lemma_ascii_encoding(lit@);
        assert(lit.spec_bytes()[0] == CR && lit.spec_bytes()[1] == LF);
        assert(lit.spec_bytes() =~= crlf());
    }
    push_text(s, lit);
}

/// Appends the decimal form of `n` to `s`.
pub fn push_decimal(s: &mut String, n: u16)
    ensures
        encode_utf8(final(s)@) == encode_utf8(old(s)@) + spec_decimal(n as nat),
    decreases n,
{
    let ghost before = s@;
    if n >= 10 {
        push_decimal(s, n / 10);
    }
    let ghost middle = s@;
    let d: usize = (n % 10) as usize;
    let digits = "0123456789";
    proof {
        reveal_strlit("0123456789");
        assert(digits@ =~= seq!['0', '1', '2', '3', '4', '5', '6', '7', '8', '9']);
    }
    let t = digits.substring_char(d, d + 1);
    proof {
        assert(t@ =~= seq![digits@[d as int]]);
        lemma_ascii_encoding(t@);
        assert(t.spec_bytes() =~= seq![(ZERO + n % 10) as u8]);
    }
    push_text(s, t);
    proof {
        if n >= 10 {
            assert(spec_decimal(n as nat) == spec_decimal((n / 10) as nat) + seq![(ZERO + n % 10) as u8]);
            assert(encode_utf8(s@) =~= encode_utf8(before) + spec_decimal(n as nat));
        } else {
            assert(encode_utf8(s@) =~= encode_utf8(before) + spec_decimal(n as nat));
        }
    }
}

} // verus!
