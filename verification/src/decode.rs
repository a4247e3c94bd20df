//! Document decoder: turns the external JSON text into the typed document
//! model, all-or-nothing. The grammar of the document — objects with the
//! external key spellings, strings with the JSON escapes, integer fields,
//! arrays of strings and of entries — is stated as spec functions over the
//! character sequence, and the executable decoder is proved to return
//! exactly what those spec functions describe.
//!
//! Unknown members of known objects are skipped, as the external format
//! gains fields over time: a skipped value is scanned with full string and
//! escape checking, but its internal structure is only checked to be
//! bracket-balanced.

use vstd::prelude::*;

verus! {

/// Why decoding failed. Decoding is all-or-nothing: the first fault aborts
/// the run before any store interaction.
#[derive(Debug, Clone, Copy, PartialEq, Eq)]
pub enum DecodeError {
    /// The text is not a well-formed document of the expected shape; the
    /// index points at the offending character.
    Malformed(usize),
    /// A required member is absent from its object.
    MissingField(&'static str),
    /// An integer member does not fit the row's integer type; the index
    /// points at the number.
    OutOfRange(usize),
}

/// The class of a decode fault: a document that parses structurally but
/// lacks a required member, named; or anything else — malformed text,
/// a wrong type, a value out of range.
pub ghost enum Fault {
    Bad,
    Missing(Seq<char>),
}

/// The fault class a decode error reports: `MissingField` names the
/// absent member, every other error is a malformation.
pub open spec fn fault_of(e: DecodeError) -> Fault {
    match e {
        DecodeError::MissingField(f) => Fault::Missing(f@),
        DecodeError::Malformed(_) => Fault::Bad,
        DecodeError::OutOfRange(_) => Fault::Bad,
    }
}

/// Relies on `String::from_iter` over characters: the returned string
/// holds exactly the given characters, in order.
#[verifier::external_body]
pub(crate) fn string_from_chars(v: &Vec<char>) -> (r: String)
    ensures
        r@ == v@,
{
    v.iter().collect()
}

/// Relies on `char::from_u32`: it returns `Some` exactly for Unicode
/// scalar values (not a surrogate, at most 0x10FFFF), and the returned
/// character has the given code point.
#[verifier::external_body]
pub(crate) fn char_from_code(n: u32) -> (r: Option<char>)
    ensures
        r is Some <==> (n < 0xD800 || (0xE000 <= n && n <= 0x10FFFF)),
        r is Some ==> r->0 == n as char,
{
    char::from_u32(n)
}

/// The characters of a text, in order.
pub fn to_chars(s: &str) -> (v: Vec<char>)
    ensures
        v@ == s@,
{
    let n = s.unicode_len();
    let mut v: Vec<char> = Vec::new();
    let mut i: usize = 0;
    while i < n
        invariant
            i <= n,
            n == s@.len(),
            v@ == s@.take(i as int),
        decreases n - i,
    {
        let c = s.get_char(i);
        v.push(c);
        i = i + 1;
        proof {
            assert(v@ =~= s@.take(i as int));
        }
    }
    proof {
        assert(v@ =~= s@);
    }
    v
}

/// JSON whitespace.
pub open spec fn is_ws(c: char) -> bool {
    c == ' ' || c == '\n' || c == '\t' || c == '\r'
}

/// The first index at or after `i` holding a non-whitespace character
/// (or the end of the text).
pub open spec fn spec_ws(s: Seq<char>, i: int) -> int
    decreases s.len() - i when 0 <= i <= s.len()
{
    if i < s.len() && is_ws(s[i]) {
        spec_ws(s, i + 1)
    } else {
        i
    }
}

fn is_ws_c(c: char) -> (b: bool)
    ensures
        b == is_ws(c),
{
    c == ' ' || c == '\n' || c == '\t' || c == '\r'
}

/// Skips JSON whitespace.
fn skip_ws(v: &Vec<char>, i: usize) -> (j: usize)
    requires
        i <= v@.len(),
    ensures
        j as int == spec_ws(v@, i as int),
        i <= j <= v@.len(),
{
    let mut j: usize = i;
    while j < v.len() && is_ws_c(v[j])
        invariant
            i <= j <= v@.len(),
            spec_ws(v@, i as int) == spec_ws(v@, j as int),
        decreases v@.len() - j,
    {
        j = j + 1;
    }
    j
}

/// A hexadecimal digit.
pub open spec fn is_hex(c: char) -> bool {
    ('0' <= c && c <= '9') || ('a' <= c && c <= 'f') || ('A' <= c && c <= 'F')
}

/// The value of a hexadecimal digit.
pub open spec fn hex_val(c: char) -> int {
    if '0' <= c && c <= '9' {
        c as u32 - '0' as u32
    } else if 'a' <= c && c <= 'f' {
        c as u32 - 'a' as u32 + 10
    } else if 'A' <= c && c <= 'F' {
        c as u32 - 'A' as u32 + 10
    } else {
        0
    }
}

/// Whether four hexadecimal digits stand at `i`.
pub open spec fn has_hex4(s: Seq<char>, i: int) -> bool {
    &&& i + 4 <= s.len()
    &&& is_hex(s[i])
    &&& is_hex(s[i + 1])
    &&& is_hex(s[i + 2])
    &&& is_hex(s[i + 3])
}

/// The value of the four hexadecimal digits at `i`.
pub open spec fn hex4_val(s: Seq<char>, i: int) -> int {
    hex_val(s[i]) * 4096 + hex_val(s[i + 1]) * 256 + hex_val(s[i + 2]) * 16 + hex_val(s[i + 3])
}

fn is_hex_c(c: char) -> (b: bool)
    ensures
        b == is_hex(c),
{
    ('0' <= c && c <= '9') || ('a' <= c && c <= 'f') || ('A' <= c && c <= 'F')
}

fn hex_val_c(c: char) -> (n: u32)
    ensures
        n == hex_val(c),
        n < 16 || !is_hex(c),
{
    if '0' <= c && c <= '9' {
        c as u32 - '0' as u32
    } else if 'a' <= c && c <= 'f' {
        c as u32 - 'a' as u32 + 10
    } else if 'A' <= c && c <= 'F' {
        c as u32 - 'A' as u32 + 10
    } else {
        0
    }
}

/// The replacement of a single-character escape, if the character is one.
pub open spec fn simple_escape(e: char) -> Option<char> {
    if e == '"' {
        Some('"')
    } else if e == '\\' {
        Some('\\')
    } else if e == '/' {
        Some('/')
    } else if e == 'b' {
        Some('\u{0008}')
    } else if e == 'f' {
        Some('\u{000C}')
    } else if e == 'n' {
        Some('\n')
    } else if e == 'r' {
        Some('\r')
    } else if e == 't' {
        Some('\t')
    } else {
        None
    }
}

/// The character and end index of a `\u` escape starting at the backslash
/// at `i` (so `s[i + 1] == 'u'`), handling surrogate pairs.
pub open spec fn spec_unicode_escape(s: Seq<char>, i: int) -> Option<(char, int)> {
    if !has_hex4(s, i + 2) {
        None
    } else {
        let cp = hex4_val(s, i + 2);
        if 0xD800 <= cp && cp < 0xDC00 {
            if i + 8 <= s.len() && s[i + 6] == '\\' && s[i + 7] == 'u' && has_hex4(s, i + 8) {
                let lo = hex4_val(s, i + 8);
                if 0xDC00 <= lo && lo < 0xE000 {
                    Some(
                        (((0x10000 + (cp - 0xD800) * 0x400 + (lo - 0xDC00)) as u32) as char, i + 12),
                    )
                } else {
                    None
                }
            } else {
                None
            }
        } else if 0xDC00 <= cp && cp < 0xE000 {
            None
        } else {
            Some(((cp as u32) as char, i + 6))
        }
    }
}

/// The content and end index of a JSON string body starting at `i`, the
/// index right after the opening quote: characters up to the closing
/// quote, with every escape replaced, and no unescaped control character.
pub open spec fn spec_string_body(s: Seq<char>, i: int) -> Option<(Seq<char>, int)>
    decreases s.len() - i when 0 <= i <= s.len()
{
    if i >= s.len() {
        None
    } else if s[i] == '"' {
        Some((Seq::empty(), i + 1))
    } else if s[i] == '\\' {
        if i + 1 >= s.len() {
            None
        } else if s[i + 1] == 'u' {
            match spec_unicode_escape(s, i) {
                Some((c, j)) => if i < j <= s.len() {
                    match spec_string_body(s, j) {
                        Some((t, e)) => Some((seq![c] + t, e)),
                        None => None,
                    }
                } else {
                    None
                },
                None => None,
            }
        } else {
            match simple_escape(s[i + 1]) {
                Some(c) => match spec_string_body(s, i + 2) {
                    Some((t, e)) => Some((seq![c] + t, e)),
                    None => None,
                },
                None => None,
            }
        }
    } else if (s[i] as u32) < 0x20 {
        None
    } else {
        match spec_string_body(s, i + 1) {
            Some((t, e)) => Some((seq![s[i]] + t, e)),
            None => None,
        }
    }
}

/// The content and end index of a JSON string whose opening quote stands
/// at `i`.
pub open spec fn spec_string(s: Seq<char>, i: int) -> Option<(Seq<char>, int)> {
    if 0 <= i < s.len() && s[i] == '"' {
        spec_string_body(s, i + 1)
    } else {
        None
    }
}

/// Reads the four hexadecimal digits at `i`.
fn read_hex4(v: &Vec<char>, i: usize) -> (r: Option<(u32, usize)>)
    requires
        i <= v@.len(),
    ensures
        r is Some <==> has_hex4(v@, i as int),
        (match r {
            Some(p) => p.0 == hex4_val(v@, i as int) && p.1 == i + 4 && p.0 < 0x10000,
            None => true,
        }),
{
    let n = v.len();
    if i >= n || n - i < 4 {
        return None;
    }
    let c0 = v[i];
    let c1 = v[i + 1];
    let c2 = v[i + 2];
    let c3 = v[i + 3];
    if is_hex_c(c0) && is_hex_c(c1) && is_hex_c(c2) && is_hex_c(c3) {
        let n = hex_val_c(c0) * 4096 + hex_val_c(c1) * 256 + hex_val_c(c2) * 16 + hex_val_c(c3);
        Some((n, i + 4))
    } else {
        None
    }
}

/// Parses the JSON string whose opening quote stands at `i`, replacing
/// escapes, and returns its characters and the index after the closing
/// quote.
#[verifier::loop_isolation(false)]
pub(crate) fn parse_string(v: &Vec<char>, i: usize) -> (r: Result<(Vec<char>, usize), DecodeError>)
    requires
        i <= v@.len(),
    ensures
        match r {
            Ok(p) => {
                &&& spec_string(v@, i as int) == Some((p.0@, p.1 as int))
                &&& i < p.1 <= v@.len()
            },
            Err(e) => spec_string(v@, i as int) is None && fault_of(e) == Fault::Bad,
        },
{
    let ghost s = v@;
    if i >= v.len() || v[i] != '"' {
        return Err(DecodeError::Malformed(i));
    }
    let ghost start: int = i + 1;
    let mut j: usize = i + 1;
    let mut out: Vec<char> = Vec::new();
    loop
        invariant
            start <= j <= s.len(),
            0 < start,
            v@ == s,
            (match spec_string_body(s, j as int) {
                Some(p) => spec_string_body(s, start) == Some((out@ + p.0, p.1)),
                None => spec_string_body(s, start) is None,
            }),
        decreases s.len() - j,
    {
        if j >= v.len() {
            // unterminated string
            proof {
                assert(spec_string_body(s, j as int) is None);
            }
            return Err(DecodeError::Malformed(j));
        }
        let c = v[j];
        if c == '"' {
            proof {
                assert(spec_string_body(s, j as int) == Some((Seq::<char>::empty(), j + 1)));
                assert(out@ + Seq::<char>::empty() =~= out@);
            }
            return Ok((out, j + 1));
        } else if c == '\\' {
            if j + 1 >= v.len() {
                proof {
                    assert(spec_string_body(s, j as int) is None);
                }
                return Err(DecodeError::Malformed(j));
            }
            let e = v[j + 1];
            if e == 'u' {
                let (c2, j2) = match unicode_escape(v, j) {
                    Some(p) => p,
                    None => {
                        proof {
                            assert(spec_string_body(s, j as int) is None);
                        }
                        return Err(DecodeError::Malformed(j));
                    },
                };
                proof {
                    step_string_body(s, start, j as int, j2 as int, out@, c2);
                }
                out.push(c2);
                j = j2;
            } else {
                let c2 = match simple_escape_c(e) {
                    Some(c2) => c2,
                    None => {
                        proof {
                            assert(spec_string_body(s, j as int) is None);
                        }
                        return Err(DecodeError::Malformed(j));
                    },
                };
                proof {
                    step_string_body(s, start, j as int, j + 2, out@, c2);
                }
                out.push(c2);
                j = j + 2;
            }
        } else if (c as u32) < 0x20 {
            proof {
                assert(spec_string_body(s, j as int) is None);
            }
            return Err(DecodeError::Malformed(j));
        } else {
            proof {
                step_string_body(s, start, j as int, j + 1, out@, c);
            }
            out.push(c);
            j = j + 1;
        }
    }
}

/// One step of the string-body loop: if the body at `j` begins with the
/// decoded character `c` and continues at `j2`, the accumulated prefix
/// grows by `c`.
proof fn step_string_body(s: Seq<char>, start: int, j: int, j2: int, acc: Seq<char>, c: char)
    requires
        0 <= start <= j < s.len(),
        j < j2 <= s.len(),
        (match spec_string_body(s, j) {
            Some(p) => spec_string_body(s, start) == Some((acc + p.0, p.1)),
            None => spec_string_body(s, start) is None,
        }),
        (match spec_string_body(s, j2) {
            Some(p) => spec_string_body(s, j) == Some((seq![c] + p.0, p.1)),
            None => spec_string_body(s, j) is None,
        }),
    ensures
        (match spec_string_body(s, j2) {
            Some(p) => spec_string_body(s, start) == Some(((acc.push(c)) + p.0, p.1)),
            None => spec_string_body(s, start) is None,
        }),
{
    match spec_string_body(s, j2) {
        Some((t, e)) => {
            assert(spec_string_body(s, j) == Some((seq![c] + t, e)));
            assert(spec_string_body(s, start) == Some((acc + (seq![c] + t), e)));
            assert(acc + (seq![c] + t) =~= (acc.push(c)) + t);
        },
        None => {},
    }
}

fn simple_escape_c(e: char) -> (r: Option<char>)
    ensures
        r == simple_escape(e),
{
    if e == '"' {
        Some('"')
    } else if e == '\\' {
        Some('\\')
    } else if e == '/' {
        Some('/')
    } else if e == 'b' {
        Some('\u{0008}')
    } else if e == 'f' {
        Some('\u{000C}')
    } else if e == 'n' {
        Some('\n')
    } else if e == 'r' {
        Some('\r')
    } else if e == 't' {
        Some('\t')
    } else {
        None
    }
}

/// Decodes the `\u` escape whose backslash stands at `j` (`v[j + 1]` is
/// `'u'`), combining surrogate pairs.
fn unicode_escape(v: &Vec<char>, j: usize) -> (r: Option<(char, usize)>)
    requires
        j + 1 < v@.len(),
        v@[j as int] == '\\',
        v@[j as int + 1] == 'u',
    ensures
        match r {
            Some(p) => spec_unicode_escape(v@, j as int) == Some((p.0, p.1 as int)) && j < p.1
                <= v@.len(),
            None => spec_unicode_escape(v@, j as int) is None,
        },
{
    let n = v.len();
    let (cp, hex_end) = match read_hex4(v, j + 2) {
        Some(p) => p,
        None => {
            return None;
        },
    };
    if 0xD800 <= cp && cp < 0xDC00 {
        if n - hex_end >= 2 && v[hex_end] == '\\' && v[hex_end + 1] == 'u' {
            let (lo, lo_end) = match read_hex4(v, hex_end + 2) {
                Some(p) => p,
                None => {
                    return None;
                },
            };
            if 0xDC00 <= lo && lo < 0xE000 {
                let code: u32 = 0x10000 + (cp - 0xD800) * 0x400 + (lo - 0xDC00);
                let c = match char_from_code(code) {
                    Some(c) => c,
                    None => {
                        // a combined surrogate pair is always a scalar value
                        proof {
                            assert(0xE000 <= code && code <= 0x10FFFF);
                            assert(false);
                        }
                        return None;
                    },
                };
                Some((c, lo_end))
            } else {
                None
            }
        } else {
            None
        }
    } else if 0xDC00 <= cp && cp < 0xE000 {
        None
    } else {
        let c = match char_from_code(cp) {
            Some(c) => c,
            None => {
                // the code point is below 0x10000 and not a surrogate
                proof {
                    assert(cp < 0xD800 || (0xE000 <= cp && cp < 0x10000));
                    assert(false);
                }
                return None;
            },
        };
        Some((c, hex_end))
    }
}

} // verus!

verus! {

/// A decimal digit.
pub open spec fn is_digit(c: char) -> bool {
    '0' <= c && c <= '9'
}

/// The first index at or after `i` holding a non-digit (or the end).
pub open spec fn spec_digits_end(s: Seq<char>, i: int) -> int
    decreases s.len() - i when 0 <= i <= s.len()
{
    if i < s.len() && is_digit(s[i]) {
        spec_digits_end(s, i + 1)
    } else {
        i
    }
}

/// The value of the digit run from `start` (inclusive) to `end` (exclusive).
pub open spec fn digits_val(s: Seq<char>, start: int, end: int) -> int
    decreases end - start when start <= end
{
    if start < end {
        digits_val(s, start, end - 1) * 10 + (s[end - 1] as u32 - '0' as u32)
    } else {
        0
    }
}

/// Ten to the given power.
pub open spec fn pow10(m: nat) -> int
    decreases m
{
    if m == 0 {
        1
    } else {
        10 * pow10((m - 1) as nat)
    }
}

/// An integer JSON number at `i`: an optional minus, then digits without a
/// leading zero, not followed by a fraction or exponent. A run of more
/// than ten digits never fits the row's integer fields and is rejected.
pub open spec fn spec_int(s: Seq<char>, i: int) -> Option<(int, int)> {
    if !(0 <= i < s.len()) {
        None
    } else {
        let neg = s[i] == '-';
        let d0 = if neg {
            i + 1
        } else {
            i
        };
        if !(d0 < s.len() && is_digit(s[d0])) {
            None
        } else {
            let dend = spec_digits_end(s, d0);
            if s[d0] == '0' && dend != d0 + 1 {
                None
            } else if dend - d0 > 10 {
                None
            } else if dend < s.len() && (s[dend] == '.' || s[dend] == 'e' || s[dend] == 'E') {
                None
            } else {
                let m = digits_val(s, d0, dend);
                Some(
                    (
                        if neg {
                            -m
                        } else {
                            m
                        },
                        dend,
                    ),
                )
            }
        }
    }
}

fn is_digit_c(c: char) -> (b: bool)
    ensures
        b == is_digit(c),
{
    '0' <= c && c <= '9'
}

/// Parses the integer at `i` into the row's integer type. Fails when no
/// integer of the grammar stands there, or when its value does not fit.
#[verifier::loop_isolation(false)]
pub(crate) fn parse_i32(v: &Vec<char>, i: usize) -> (r: Result<(i32, usize), DecodeError>)
    requires
        i <= v@.len(),
    ensures
        (match r {
            Ok(p) => spec_int(v@, i as int) == Some((p.0 as int, p.1 as int)) && i < p.1
                <= v@.len(),
            Err(e) => fault_of(e) == Fault::Bad && (match spec_int(v@, i as int) {
                Some(q) => q.0 > i32::MAX as int || q.0 < i32::MIN as int,
                None => true,
            }),
        }),
{
    let ghost s = v@;
    let n = v.len();
    if i >= n {
        return Err(DecodeError::Malformed(i));
    }
    let neg = v[i] == '-';
    let d0: usize = if neg {
        i + 1
    } else {
        i
    };
    if d0 >= n || !is_digit_c(v[d0]) {
        return Err(DecodeError::Malformed(d0));
    }
    let mut dend: usize = d0;
    while dend < n && is_digit_c(v[dend])
        invariant
            d0 <= dend <= n,
            spec_digits_end(s, d0 as int) == spec_digits_end(s, dend as int),
        decreases n - dend,
    {
        dend = dend + 1;
    }
    proof {
        assert(spec_digits_end(s, dend as int) == dend);
    }
    if v[d0] == '0' && dend != d0 + 1 {
        return Err(DecodeError::Malformed(d0));
    }
    if dend - d0 > 10 {
        return Err(DecodeError::Malformed(d0));
    }
    if dend < n && (v[dend] == '.' || v[dend] == 'e' || v[dend] == 'E') {
        return Err(DecodeError::Malformed(dend));
    }
    let mut acc: i64 = 0;
    let mut k: usize = d0;
    while k < dend
        invariant
            d0 <= k <= dend,
            k - d0 <= 10,
            0 <= acc,
            acc == digits_val(s, d0 as int, k as int),
            acc < pow10((k - d0) as nat),
        decreases dend - k,
    {
        proof {
            lemma_digits_run(s, d0 as int);
            assert(is_digit(s[k as int]));
            assert(pow10(((k + 1) - d0) as nat) == 10 * pow10((k - d0) as nat));
            assert(pow10((k - d0) as nat) <= pow10(10)) by {
                lemma_pow10_le((k - d0) as nat, 10);
            }
            assert(pow10(10) == 10000000000) by {
                reveal_with_fuel(pow10, 11);
            }
        }
        let d = v[k] as u32 - '0' as u32;
        acc = acc * 10 + d as i64;
        k = k + 1;
    }
    proof {
        assert(pow10(10) == 10000000000) by {
            reveal_with_fuel(pow10, 11);
        }
        assert(pow10((k - d0) as nat) <= pow10(10)) by {
            lemma_pow10_le((k - d0) as nat, 10);
        }
    }
    if neg {
        if acc > 2147483648 {
            return Err(DecodeError::OutOfRange(i));
        }
        Ok(((-acc) as i32, dend))
    } else {
        if acc > 2147483647 {
            return Err(DecodeError::OutOfRange(i));
        }
        Ok((acc as i32, dend))
    }
}

/// Every character of a digit run is a digit.
pub proof fn lemma_digits_run(s: Seq<char>, i: int)
    requires
        0 <= i <= s.len(),
    ensures
        i <= spec_digits_end(s, i) <= s.len(),
        forall|k: int| i <= k < spec_digits_end(s, i) ==> is_digit(#[trigger] s[k]),
    decreases s.len() - i,
{
    if i < s.len() && is_digit(s[i]) {
        lemma_digits_run(s, i + 1);
    }
}

/// Ten to a smaller power is no larger.
pub proof fn lemma_pow10_le(a: nat, b: nat)
    requires
        a <= b,
    ensures
        pow10(a) <= pow10(b),
        pow10(a) >= 1,
    decreases b,
{
    if a == b {
        if a == 0 {
        } else {
            lemma_pow10_le((a - 1) as nat, (b - 1) as nat);
        }
    } else {
        lemma_pow10_le(a, (b - 1) as nat);
    }
}

/// The word `null` stands at `i`.
pub open spec fn has_null(s: Seq<char>, i: int) -> bool {
    &&& i + 4 <= s.len()
    &&& s[i] == 'n'
    &&& s[i + 1] == 'u'
    &&& s[i + 2] == 'l'
    &&& s[i + 3] == 'l'
}

/// The word `true` stands at `i`.
pub open spec fn has_true(s: Seq<char>, i: int) -> bool {
    &&& i + 4 <= s.len()
    &&& s[i] == 't'
    &&& s[i + 1] == 'r'
    &&& s[i + 2] == 'u'
    &&& s[i + 3] == 'e'
}

/// The word `false` stands at `i`.
pub open spec fn has_false(s: Seq<char>, i: int) -> bool {
    &&& i + 5 <= s.len()
    &&& s[i] == 'f'
    &&& s[i + 1] == 'a'
    &&& s[i + 2] == 'l'
    &&& s[i + 3] == 's'
    &&& s[i + 4] == 'e'
}

fn check_null(v: &Vec<char>, i: usize) -> (b: bool)
    requires
        i <= v@.len(),
    ensures
        b == has_null(v@, i as int),
{
    let n = v.len();
    i < n && n - i >= 4 && v[i] == 'n' && v[i + 1] == 'u' && v[i + 2] == 'l' && v[i + 3] == 'l'
}

fn check_true(v: &Vec<char>, i: usize) -> (b: bool)
    requires
        i <= v@.len(),
    ensures
        b == has_true(v@, i as int),
{
    let n = v.len();
    i < n && n - i >= 4 && v[i] == 't' && v[i + 1] == 'r' && v[i + 2] == 'u' && v[i + 3] == 'e'
}

fn check_false(v: &Vec<char>, i: usize) -> (b: bool)
    requires
        i <= v@.len(),
    ensures
        b == has_false(v@, i as int),
{
    let n = v.len();
    i < n && n - i >= 5 && v[i] == 'f' && v[i + 1] == 'a' && v[i + 2] == 'l' && v[i + 3] == 's'
        && v[i + 4] == 'e'
}


/// Skips a run of decimal digits.
fn digits_end_from(v: &Vec<char>, i: usize) -> (r: usize)
    requires
        i <= v@.len(),
    ensures
        r as int == spec_digits_end(v@, i as int),
        i <= r <= v@.len(),
        i < v@.len() && is_digit(v@[i as int]) ==> i < r,
{
    let mut k: usize = i;
    while k < v.len() && is_digit_c(v[k])
        invariant
            i <= k <= v@.len(),
            spec_digits_end(v@, i as int) == spec_digits_end(v@, k as int),
            i < v@.len() && is_digit(v@[i as int]) && k == i ==> k < v@.len() && is_digit(v@[k as int]),
        decreases v@.len() - k,
    {
        k = k + 1;
    }
    k
}

/// The end of the fraction part at `ie`, if well-formed: either no
/// fraction, or a dot followed by at least one digit.
pub open spec fn spec_frac_end(s: Seq<char>, ie: int) -> Option<int> {
    if !(0 <= ie <= s.len()) {
        None
    } else if ie < s.len() && s[ie] == '.' {
        let d = ie + 1;
        if d < s.len() && is_digit(s[d]) {
            Some(spec_digits_end(s, d))
        } else {
            None
        }
    } else {
        Some(ie)
    }
}

/// The end of the exponent part at `fe`, if well-formed: either no
/// exponent, or `e`/`E`, an optional sign, and at least one digit.
pub open spec fn spec_exp_end(s: Seq<char>, fe: int) -> Option<int> {
    if !(0 <= fe <= s.len()) {
        None
    } else if fe < s.len() && (s[fe] == 'e' || s[fe] == 'E') {
        let q = if fe + 1 < s.len() && (s[fe + 1] == '+' || s[fe + 1] == '-') {
            fe + 2
        } else {
            fe + 1
        };
        if q < s.len() && is_digit(s[q]) {
            Some(spec_digits_end(s, q))
        } else {
            None
        }
    } else {
        Some(fe)
    }
}

/// The end of the JSON number at `i`: an optional minus, an integer part
/// without a leading zero, and optional well-formed fraction and exponent
/// parts.
pub open spec fn spec_json_number_end(s: Seq<char>, i: int) -> Option<int> {
    if !(0 <= i < s.len()) {
        None
    } else {
        let p = if s[i] == '-' {
            i + 1
        } else {
            i
        };
        if !(p < s.len() && is_digit(s[p])) {
            None
        } else {
            let ie = spec_digits_end(s, p);
            if s[p] == '0' && ie != p + 1 {
                None
            } else {
                match spec_frac_end(s, ie) {
                    Some(fe) => spec_exp_end(s, fe),
                    None => None,
                }
            }
        }
    }
}

/// Scans the JSON number at `i` and returns the index right after it.
fn json_number_end(v: &Vec<char>, i: usize) -> (r: Result<usize, DecodeError>)
    requires
        i <= v@.len(),
    ensures
        (match r {
            Ok(e) => spec_json_number_end(v@, i as int) == Some(e as int) && i < e <= v@.len(),
            Err(e) => spec_json_number_end(v@, i as int) is None && fault_of(e) == Fault::Bad,
        }),
{
    let n = v.len();
    if i >= n {
        return Err(DecodeError::Malformed(i));
    }
    let p: usize = if v[i] == '-' {
        i + 1
    } else {
        i
    };
    if p >= n || !is_digit_c(v[p]) {
        return Err(DecodeError::Malformed(p));
    }
    let ie = digits_end_from(v, p);
    if v[p] == '0' && ie != p + 1 {
        return Err(DecodeError::Malformed(p));
    }
    let fe: usize;
    if ie < n && v[ie] == '.' {
        let d = ie + 1;
        if d >= n || !is_digit_c(v[d]) {
            return Err(DecodeError::Malformed(d));
        }
        fe = digits_end_from(v, d);
    } else {
        fe = ie;
    }
    let ee: usize;
    if fe < n && (v[fe] == 'e' || v[fe] == 'E') {
        let q: usize = if fe + 1 < n && (v[fe + 1] == '+' || v[fe + 1] == '-') {
            fe + 2
        } else {
            fe + 1
        };
        if q >= n || !is_digit_c(v[q]) {
            return Err(DecodeError::Malformed(q));
        }
        ee = digits_end_from(v, q);
    } else {
        ee = fe;
    }
    Ok(ee)
}

/// The end of the ignored value starting at `i`: a string, an object, an
/// array, a literal word, or a number, each checked against the JSON
/// value grammar.
pub open spec fn spec_skip_value(s: Seq<char>, i: int) -> Option<int>
    decreases s.len() - i, 0int when 0 <= i <= s.len()
{
    if i >= s.len() {
        None
    } else if s[i] == '"' {
        match spec_string(s, i) {
            Some(p) => Some(p.1),
            None => None,
        }
    } else if s[i] == '{' {
        spec_skip_members(s, i + 1, true)
    } else if s[i] == '[' {
        spec_skip_elems(s, i + 1, true)
    } else if has_null(s, i) {
        Some(i + 4)
    } else if has_true(s, i) {
        Some(i + 4)
    } else if has_false(s, i) {
        Some(i + 5)
    } else if s[i] == '-' || is_digit(s[i]) {
        spec_json_number_end(s, i)
    } else {
        None
    }
}

/// The end of the ignored object whose members begin at `i` (right after
/// `{` or after a member): keys, colons, commas, member values and the
/// closing `}` all checked against the grammar.
pub open spec fn spec_skip_members(s: Seq<char>, i: int, first: bool) -> Option<int>
    decreases s.len() - i, 1int when 0 <= i <= s.len()
{
    let j = spec_ws(s, i);
    if !(i <= j <= s.len()) {
        None
    } else if j >= s.len() {
        None
    } else if s[j] == '}' {
        Some(j + 1)
    } else {
        let m = if first {
            j
        } else if s[j] == ',' {
            spec_ws(s, j + 1)
        } else {
            s.len() as int + 1
        };
        if m > s.len() {
            None
        } else {
            match spec_string(s, m) {
                Some(kp) => {
                    let k2 = spec_ws(s, kp.1);
                    if !(0 <= kp.1 <= s.len() && k2 < s.len() && s[k2] == ':') {
                        None
                    } else {
                        let k3 = spec_ws(s, k2 + 1);
                        if !(i < k3 <= s.len()) {
                            None
                        } else {
                            match spec_skip_value(s, k3) {
                                Some(e) => if i < e <= s.len() {
                                    spec_skip_members(s, e, false)
                                } else {
                                    None
                                },
                                None => None,
                            }
                        }
                    }
                },
                None => None,
            }
        }
    }
}

/// The end of the ignored array whose elements begin at `i` (right after
/// `[` or after an element): commas, element values and the closing `]`
/// all checked against the grammar.
pub open spec fn spec_skip_elems(s: Seq<char>, i: int, first: bool) -> Option<int>
    decreases s.len() - i, 1int when 0 <= i <= s.len()
{
    let j = spec_ws(s, i);
    if !(i <= j <= s.len()) {
        None
    } else if j >= s.len() {
        None
    } else if s[j] == ']' {
        Some(j + 1)
    } else {
        let m = if first {
            j
        } else if s[j] == ',' {
            spec_ws(s, j + 1)
        } else {
            s.len() as int + 1
        };
        if !(i <= m && m <= s.len()) {
            None
        } else {
            match spec_skip_value(s, m) {
                Some(e) => if i < e <= s.len() {
                    spec_skip_elems(s, e, false)
                } else {
                    None
                },
                None => None,
            }
        }
    }
}

/// Skips the ignored value starting at `i`.
#[verifier::loop_isolation(false)]
pub(crate) fn skip_value(v: &Vec<char>, i: usize) -> (r: Result<usize, DecodeError>)
    requires
        i <= v@.len(),
    ensures
        (match r {
            Ok(e) => spec_skip_value(v@, i as int) == Some(e as int) && i < e <= v@.len(),
            Err(e) => spec_skip_value(v@, i as int) is None && fault_of(e) == Fault::Bad,
        }),
    decreases v@.len() - i, 0int,
{
    let n = v.len();
    if i >= n {
        return Err(DecodeError::Malformed(i));
    }
    let c = v[i];
    if c == '"' {
        match parse_string(v, i) {
            Ok(p) => Ok(p.1),
            Err(e) => Err(e),
        }
    } else if c == '{' {
        skip_members(v, i + 1)
    } else if c == '[' {
        skip_elems(v, i + 1)
    } else if check_null(v, i) {
        Ok(i + 4)
    } else if check_true(v, i) {
        Ok(i + 4)
    } else if check_false(v, i) {
        Ok(i + 5)
    } else if c == '-' || is_digit_c(c) {
        json_number_end(v, i)
    } else {
        Err(DecodeError::Malformed(i))
    }
}

/// Skips the members of an ignored object from `i` to its closing `}`.
#[verifier::loop_isolation(false)]
fn skip_members(v: &Vec<char>, i: usize) -> (r: Result<usize, DecodeError>)
    requires
        i <= v@.len(),
    ensures
        (match r {
            Ok(e) => spec_skip_members(v@, i as int, true) == Some(e as int) && i < e <= v@.len(),
            Err(e) => spec_skip_members(v@, i as int, true) is None && fault_of(e) == Fault::Bad,
        }),
    decreases v@.len() - i, 1int,
{
    let ghost s = v@;
    let n = v.len();
    let mut k: usize = i;
    let mut first: bool = true;
    loop
        invariant
            i <= k <= n,
            spec_skip_members(s, i as int, true) == spec_skip_members(s, k as int, first),
        decreases n - k,
    {
        let j = skip_ws(v, k);
        if j >= n {
            return Err(DecodeError::Malformed(j));
        }
        if v[j] == '}' {
            return Ok(j + 1);
        }
        let m: usize;
        if first {
            m = j;
        } else {
            if v[j] != ',' {
                return Err(DecodeError::Malformed(j));
            }
            m = skip_ws(v, j + 1);
        }
        let (_key, k1) = match parse_string(v, m) {
            Ok(p) => p,
            Err(e) => {
                return Err(e);
            },
        };
        let k2 = skip_ws(v, k1);
        if k2 >= n || v[k2] != ':' {
            return Err(DecodeError::Malformed(k2));
        }
        let k3 = skip_ws(v, k2 + 1);
        let e = match skip_value(v, k3) {
            Ok(e) => e,
            Err(er) => {
                return Err(er);
            },
        };
        k = e;
        first = false;
    }
}

/// Skips the elements of an ignored array from `i` to its closing `]`.
#[verifier::loop_isolation(false)]
fn skip_elems(v: &Vec<char>, i: usize) -> (r: Result<usize, DecodeError>)
    requires
        i <= v@.len(),
    ensures
        (match r {
            Ok(e) => spec_skip_elems(v@, i as int, true) == Some(e as int) && i < e <= v@.len(),
            Err(e) => spec_skip_elems(v@, i as int, true) is None && fault_of(e) == Fault::Bad,
        }),
    decreases v@.len() - i, 1int,
{
    let ghost s = v@;
    let n = v.len();
    let mut k: usize = i;
    let mut first: bool = true;
    loop
        invariant
            i <= k <= n,
            spec_skip_elems(s, i as int, true) == spec_skip_elems(s, k as int, first),
        decreases n - k,
    {
        let j = skip_ws(v, k);
        if j >= n {
            return Err(DecodeError::Malformed(j));
        }
        if v[j] == ']' {
            return Ok(j + 1);
        }
        let m: usize;
        if first {
            m = j;
        } else {
            if v[j] != ',' {
                return Err(DecodeError::Malformed(j));
            }
            m = skip_ws(v, j + 1);
        }
        let e = match skip_value(v, m) {
            Ok(e) => e,
            Err(er) => {
                return Err(er);
            },
        };
        k = e;
        first = false;
    }
}

} // verus!

verus! {

/// Compares parsed characters against a fixed key.
fn chars_eq(k: &Vec<char>, lit: &str) -> (b: bool)
    ensures
        b == (k@ == lit@),
{
    let n = lit.unicode_len();
    if k.len() != n {
        proof {
            assert(k@.len() != lit@.len());
        }
        return false;
    }
    let mut idx: usize = 0;
    while idx < n
        invariant
            idx <= n,
            n == lit@.len(),
            k@.len() == n,
            forall|q: int| 0 <= q < idx ==> k@[q] == lit@[q],
        decreases n - idx,
    {
        let c = lit.get_char(idx);
        if k[idx] != c {
            proof {
                assert(k@[idx as int] != lit@[idx as int]);
            }
            return false;
        }
        idx = idx + 1;
    }
    proof {
        assert(k@ =~= lit@);
    }
    true
}

/// View of an optional parsed string.
pub open spec fn opt_str(o: Option<String>) -> Option<Seq<char>> {
    match o {
        Some(x) => Some(x@),
        None => None,
    }
}

/// View of an optional parsed string array.
pub open spec fn opt_strs(o: Option<Vec<String>>) -> Option<Seq<Seq<char>>> {
    match o {
        Some(x) => Some(crate::model::str_views(x@)),
        None => None,
    }
}

/// View of an optional parsed integer.
pub open spec fn opt_int(o: Option<i32>) -> Option<int> {
    match o {
        Some(x) => Some(x as int),
        None => None,
    }
}

/// View of an optional parsed year (which may itself be null).
pub open spec fn opt_year(o: Option<Option<i32>>) -> Option<Option<int>> {
    match o {
        Some(Some(y)) => Some(Some(y as int)),
        Some(None) => Some(None),
        None => None,
    }
}

/// What has been seen of a season object so far.
pub ghost struct SeasonAcc {
    pub season: Option<Seq<char>>,
    pub year: Option<Option<int>>,
}

/// One member of a season object, whose key starts at `m`: the season
/// label, the year (an integer that fits the row's integer type, or null),
/// or an ignored member. A key seen twice is refused.
pub open spec fn spec_season_member_at(s: Seq<char>, m: int, acc: SeasonAcc) -> Result<
    (SeasonAcc, int),
    Fault,
> {
    match spec_string(s, m) {
        Some(kp) => {
            let k2 = spec_ws(s, kp.1);
            if !(0 <= kp.1 <= s.len() && k2 < s.len() && s[k2] == ':') {
                Err(Fault::Bad)
            } else {
                let k3 = spec_ws(s, k2 + 1);
                if kp.0 == "season"@ {
                    if acc.season is Some {
                        Err(Fault::Bad)
                    } else {
                        match spec_string(s, k3) {
                            Some(vp) => Ok(
                                (SeasonAcc { season: Some(vp.0), year: acc.year }, vp.1),
                            ),
                            None => Err(Fault::Bad),
                        }
                    }
                } else if kp.0 == "year"@ {
                    if acc.year is Some {
                        Err(Fault::Bad)
                    } else if has_null(s, k3) {
                        Ok((SeasonAcc { season: acc.season, year: Some(None) }, k3 + 4))
                    } else {
                        match spec_int(s, k3) {
                            Some(vp) => if i32::MIN <= vp.0 <= i32::MAX {
                                Ok(
                                    (SeasonAcc { season: acc.season, year: Some(Some(vp.0)) }, vp.1),
                                )
                            } else {
                                Err(Fault::Bad)
                            },
                            None => Err(Fault::Bad),
                        }
                    }
                } else {
                    match spec_skip_value(s, k3) {
                        Some(e) => Ok((acc, e)),
                        None => Err(Fault::Bad),
                    }
                }
            }
        },
        None => Err(Fault::Bad),
    }
}

/// The members of a season object from `i` (right after `{` or after a
/// member) to the closing `}`.
pub open spec fn spec_season_members(s: Seq<char>, i: int, acc: SeasonAcc, first: bool) -> Result<
    (SeasonAcc, int),
    Fault,
>
    decreases s.len() - i when 0 <= i <= s.len()
{
    let j = spec_ws(s, i);
    if !(i <= j <= s.len()) {
        Err(Fault::Bad)
    } else if j >= s.len() {
        Err(Fault::Bad)
    } else if s[j] == '}' {
        Ok((acc, j + 1))
    } else {
        let m = if first {
            j
        } else if s[j] == ',' {
            spec_ws(s, j + 1)
        } else {
            s.len() as int + 1
        };
        if m > s.len() {
            Err(Fault::Bad)
        } else {
            match spec_season_member_at(s, m, acc) {
                Ok(p) => if i < p.1 <= s.len() {
                    spec_season_members(s, p.1, p.0, false)
                } else {
                    Err(Fault::Bad)
                },
                Err(f) => Err(f),
            }
        }
    }
}

/// The season object whose `{` stands at `i`: the season label is
/// required, the year may be absent or null.
pub open spec fn spec_season_obj(s: Seq<char>, i: int) -> Result<
    (crate::model::SeasonV, int),
    Fault,
> {
    if 0 <= i < s.len() && s[i] == '{' {
        match spec_season_members(s, i + 1, (SeasonAcc { season: None, year: None }), true) {
            Ok(p) => match p.0.season {
                Some(label) => Ok(
                    (
                        crate::model::SeasonV {
                            season: label,
                            year: (match p.0.year {
                                Some(y) => y,
                                None => None,
                            }),
                        },
                        p.1,
                    ),
                ),
                None => Err(Fault::Missing("season"@)),
            },
            Err(f) => Err(f),
        }
    } else {
        Err(Fault::Bad)
    }
}

/// Parses the season object whose `{` stands at `i`.
#[verifier::loop_isolation(false)]
pub(crate) fn parse_season(v: &Vec<char>, i: usize) -> (r: Result<
    (crate::model::AnimeSeason, usize),
    DecodeError,
>)
    requires
        i <= v@.len(),
    ensures
        (match r {
            Ok(p) => spec_season_obj(v@, i as int) == Ok::<(crate::model::SeasonV, int), Fault>((p.0@, p.1 as int)) && i < p.1
                <= v@.len(),
            Err(e) => spec_season_obj(v@, i as int) == Err::<(crate::model::SeasonV, int), Fault>(fault_of(e)),
        }),
{
    let ghost s = v@;
    let n = v.len();
    if i >= n || v[i] != '{' {
        return Err(DecodeError::Malformed(i));
    }
    let mut season_f: Option<String> = None;
    let mut year_f: Option<Option<i32>> = None;
    let mut k: usize = i + 1;
    let mut first: bool = true;
    let ghost acc0 = SeasonAcc { season: None, year: None };
    loop
        invariant
            i + 1 <= k <= n,
            spec_season_members(s, i + 1 as int, acc0, true) == spec_season_members(
                s,
                k as int,
                (SeasonAcc { season: opt_str(season_f), year: opt_year(year_f) }),
                first,
            ),
        decreases n - k,
    {
        let ghost acc_cur = SeasonAcc { season: opt_str(season_f), year: opt_year(year_f) };
        let j = skip_ws(v, k);
        if j >= n {
            return Err(DecodeError::Malformed(j));
        }
        if v[j] == '}' {
            let label = match season_f {
                Some(x) => x,
                None => {
                    return Err(DecodeError::MissingField("season"));
                },
            };
            let se = crate::model::AnimeSeason {
                season: label,
                year: (match year_f {
                    Some(y) => y,
                    None => None,
                }),
            };
            return Ok((se, j + 1));
        }
        let m: usize;
        if first {
            m = j;
        } else {
            if v[j] != ',' {
                return Err(DecodeError::Malformed(j));
            }
            m = skip_ws(v, j + 1);
        }
        let (key, k1) = match parse_string(v, m) {
            Ok(p) => p,
            Err(e) => {
                return Err(e);
            },
        };
        let k2 = skip_ws(v, k1);
        if k2 >= n || v[k2] != ':' {
            return Err(DecodeError::Malformed(k2));
        }
        let k3 = skip_ws(v, k2 + 1);
        if chars_eq(&key, "season") {
            if season_f.is_some() {
                return Err(DecodeError::Malformed(m));
            }
            let (val, e) = match parse_string(v, k3) {
                Ok(p) => p,
                Err(er) => {
                    return Err(er);
                },
            };
            season_f = Some(string_from_chars(&val));
            proof {
                assert(spec_season_member_at(s, m as int, acc_cur) == Ok::<(SeasonAcc, int), Fault>(
                    ((SeasonAcc { season: opt_str(season_f), year: opt_year(year_f) }), e as int),
                ));
            }
            k = e;
            first = false;
        } else if chars_eq(&key, "year") {
            if year_f.is_some() {
                return Err(DecodeError::Malformed(m));
            }
            if check_null(v, k3) {
                year_f = Some(None);
                k = k3 + 4;
            } else {
                let (val, e) = match parse_i32(v, k3) {
                    Ok(p) => p,
                    Err(er) => {
                        return Err(er);
                    },
                };
                year_f = Some(Some(val));
                k = e;
            }
            first = false;
        } else {
            let e = match skip_value(v, k3) {
                Ok(e) => e,
                Err(er) => {
                    return Err(er);
                },
            };
            k = e;
            first = false;
        }
    }
}

} // verus!

verus! {

/// What has been seen of a license object so far.
pub ghost struct LicenseAcc {
    pub name: Option<Seq<char>>,
    pub url: Option<Seq<char>>,
}

/// One member of a license object, whose key starts at `m`.
pub open spec fn spec_license_member_at(s: Seq<char>, m: int, acc: LicenseAcc) -> Result<
    (LicenseAcc, int),
    Fault,
> {
    match spec_string(s, m) {
        Some(kp) => {
            let k2 = spec_ws(s, kp.1);
            if !(0 <= kp.1 <= s.len() && k2 < s.len() && s[k2] == ':') {
                Err(Fault::Bad)
            } else {
                let k3 = spec_ws(s, k2 + 1);
                if kp.0 == "name"@ {
                    if acc.name is Some {
                        Err(Fault::Bad)
                    } else {
                        match spec_string(s, k3) {
                            Some(vp) => Ok((LicenseAcc { name: Some(vp.0), url: acc.url }, vp.1)),
                            None => Err(Fault::Bad),
                        }
                    }
                } else if kp.0 == "url"@ {
                    if acc.url is Some {
                        Err(Fault::Bad)
                    } else {
                        match spec_string(s, k3) {
                            Some(vp) => Ok(
                                (LicenseAcc { name: acc.name, url: Some(vp.0) }, vp.1),
                            ),
                            None => Err(Fault::Bad),
                        }
                    }
                } else {
                    match spec_skip_value(s, k3) {
                        Some(e) => Ok((acc, e)),
                        None => Err(Fault::Bad),
                    }
                }
            }
        },
        None => Err(Fault::Bad),
    }
}

/// The members of a license object from `i` to the closing `}`.
pub open spec fn spec_license_members(s: Seq<char>, i: int, acc: LicenseAcc, first: bool) -> Result<
    (LicenseAcc, int),
    Fault,
>
    decreases s.len() - i when 0 <= i <= s.len()
{
    let j = spec_ws(s, i);
    if !(i <= j <= s.len()) {
        Err(Fault::Bad)
    } else if j >= s.len() {
        Err(Fault::Bad)
    } else if s[j] == '}' {
        Ok((acc, j + 1))
    } else {
        let m = if first {
            j
        } else if s[j] == ',' {
            spec_ws(s, j + 1)
        } else {
            s.len() as int + 1
        };
        if m > s.len() {
            Err(Fault::Bad)
        } else {
            match spec_license_member_at(s, m, acc) {
                Ok(p) => if i < p.1 <= s.len() {
                    spec_license_members(s, p.1, p.0, false)
                } else {
                    Err(Fault::Bad)
                },
                Err(f) => Err(f),
            }
        }
    }
}

/// The license object whose `{` stands at `i`: name and url are required.
pub open spec fn spec_license_obj(s: Seq<char>, i: int) -> Result<
    (crate::model::LicenseV, int),
    Fault,
> {
    if 0 <= i < s.len() && s[i] == '{' {
        match spec_license_members(s, i + 1, (LicenseAcc { name: None, url: None }), true) {
            Ok(p) => if p.0.name is None {
                Err(Fault::Missing("name"@))
            } else if p.0.url is None {
                Err(Fault::Missing("url"@))
            } else {
                Ok(
                    (crate::model::LicenseV { name: p.0.name->0, url: p.0.url->0 }, p.1),
                )
            },
            Err(f) => Err(f),
        }
    } else {
        Err(Fault::Bad)
    }
}

/// Parses the license object whose `{` stands at `i`.
#[verifier::loop_isolation(false)]
pub(crate) fn parse_license(v: &Vec<char>, i: usize) -> (r: Result<
    (crate::model::License, usize),
    DecodeError,
>)
    requires
        i <= v@.len(),
    ensures
        (match r {
            Ok(p) => spec_license_obj(v@, i as int) == Ok::<(crate::model::LicenseV, int), Fault>((p.0@, p.1 as int)) && i < p.1
                <= v@.len(),
            Err(e) => spec_license_obj(v@, i as int) == Err::<(crate::model::LicenseV, int), Fault>(fault_of(e)),
        }),
{
    let ghost s = v@;
    let n = v.len();
    if i >= n || v[i] != '{' {
        return Err(DecodeError::Malformed(i));
    }
    let mut name_f: Option<String> = None;
    let mut url_f: Option<String> = None;
    let mut k: usize = i + 1;
    let mut first: bool = true;
    let ghost acc0 = LicenseAcc { name: None, url: None };
    loop
        invariant
            i + 1 <= k <= n,
            spec_license_members(s, i + 1 as int, acc0, true) == spec_license_members(
                s,
                k as int,
                (LicenseAcc { name: opt_str(name_f), url: opt_str(url_f) }),
                first,
            ),
        decreases n - k,
    {
        let ghost acc_cur = LicenseAcc { name: opt_str(name_f), url: opt_str(url_f) };
        let j = skip_ws(v, k);
        if j >= n {
            return Err(DecodeError::Malformed(j));
        }
        if v[j] == '}' {
            let name = match name_f {
                Some(x) => x,
                None => {
                    return Err(DecodeError::MissingField("name"));
                },
            };
            let url = match url_f {
                Some(x) => x,
                None => {
                    return Err(DecodeError::MissingField("url"));
                },
            };
            return Ok((crate::model::License { name, url }, j + 1));
        }
        let m: usize;
        if first {
            m = j;
        } else {
            if v[j] != ',' {
                return Err(DecodeError::Malformed(j));
            }
            m = skip_ws(v, j + 1);
        }
        let (key, k1) = match parse_string(v, m) {
            Ok(p) => p,
            Err(e) => {
                return Err(e);
            },
        };
        let k2 = skip_ws(v, k1);
        if k2 >= n || v[k2] != ':' {
            return Err(DecodeError::Malformed(k2));
        }
        let k3 = skip_ws(v, k2 + 1);
        if chars_eq(&key, "name") {
            if name_f.is_some() {
                return Err(DecodeError::Malformed(m));
            }
            let (val, e) = match parse_string(v, k3) {
                Ok(p) => p,
                Err(er) => {
                    return Err(er);
                },
            };
            name_f = Some(string_from_chars(&val));
            k = e;
            first = false;
        } else if chars_eq(&key, "url") {
            if url_f.is_some() {
                return Err(DecodeError::Malformed(m));
            }
            let (val, e) = match parse_string(v, k3) {
                Ok(p) => p,
                Err(er) => {
                    return Err(er);
                },
            };
            url_f = Some(string_from_chars(&val));
            k = e;
            first = false;
        } else {
            let e = match skip_value(v, k3) {
                Ok(e) => e,
                Err(er) => {
                    return Err(er);
                },
            };
            k = e;
            first = false;
        }
    }
}

/// The elements of a string array from `i` (right after `[` or after an
/// element) to the closing `]`.
pub open spec fn spec_str_elems(s: Seq<char>, i: int, acc: Seq<Seq<char>>, first: bool) -> Result<
    (Seq<Seq<char>>, int),
    Fault,
>
    decreases s.len() - i when 0 <= i <= s.len()
{
    let j = spec_ws(s, i);
    if !(i <= j <= s.len()) {
        Err(Fault::Bad)
    } else if j >= s.len() {
        Err(Fault::Bad)
    } else if s[j] == ']' {
        Ok((acc, j + 1))
    } else {
        let m = if first {
            j
        } else if s[j] == ',' {
            spec_ws(s, j + 1)
        } else {
            s.len() as int + 1
        };
        if m > s.len() {
            Err(Fault::Bad)
        } else {
            match spec_string(s, m) {
                Some(p) => if i < p.1 <= s.len() {
                    spec_str_elems(s, p.1, acc.push(p.0), false)
                } else {
                    Err(Fault::Bad)
                },
                None => Err(Fault::Bad),
            }
        }
    }
}

/// The string array whose `[` stands at `i`.
pub open spec fn spec_str_array(s: Seq<char>, i: int) -> Result<(Seq<Seq<char>>, int), Fault> {
    if 0 <= i < s.len() && s[i] == '[' {
        spec_str_elems(s, i + 1, Seq::empty(), true)
    } else {
        Err(Fault::Bad)
    }
}

/// Parses the string array whose `[` stands at `i`.
#[verifier::loop_isolation(false)]
pub(crate) fn parse_str_array(v: &Vec<char>, i: usize) -> (r: Result<
    (Vec<String>, usize),
    DecodeError,
>)
    requires
        i <= v@.len(),
    ensures
        (match r {
            Ok(p) => spec_str_array(v@, i as int) == Ok::<(Seq<Seq<char>>, int), Fault>(
                (crate::model::str_views(p.0@), p.1 as int),
            ) && i < p.1 <= v@.len(),
            Err(e) => spec_str_array(v@, i as int) == Err::<(Seq<Seq<char>>, int), Fault>(fault_of(e)),
        }),
{
    let ghost s = v@;
    let n = v.len();
    if i >= n || v[i] != '[' {
        return Err(DecodeError::Malformed(i));
    }
    let mut out: Vec<String> = Vec::new();
    let mut k: usize = i + 1;
    let mut first: bool = true;
    proof {
        assert(crate::model::str_views(out@) =~= Seq::<Seq<char>>::empty());
    }
    loop
        invariant
            i + 1 <= k <= n,
            spec_str_elems(s, i + 1 as int, Seq::empty(), true) == spec_str_elems(
                s,
                k as int,
                crate::model::str_views(out@),
                first,
            ),
        decreases n - k,
    {
        let ghost acc_cur = crate::model::str_views(out@);
        let j = skip_ws(v, k);
        if j >= n {
            return Err(DecodeError::Malformed(j));
        }
        if v[j] == ']' {
            return Ok((out, j + 1));
        }
        let m: usize;
        if first {
            m = j;
        } else {
            if v[j] != ',' {
                return Err(DecodeError::Malformed(j));
            }
            m = skip_ws(v, j + 1);
        }
        let (val, e) = match parse_string(v, m) {
            Ok(p) => p,
            Err(er) => {
                return Err(er);
            },
        };
        out.push(string_from_chars(&val));
        proof {
            assert(crate::model::str_views(out@) =~= acc_cur.push(val@));
        }
        k = e;
        first = false;
    }
}

} // verus!

verus! {

/// View of an optional parsed season.
pub open spec fn opt_season(o: Option<crate::model::AnimeSeason>) -> Option<
    crate::model::SeasonV,
> {
    match o {
        Some(x) => Some(x@),
        None => None,
    }
}

/// What has been seen of an entry object so far.
pub ghost struct EntryAcc {
    pub sources: Option<Seq<Seq<char>>>,
    pub title: Option<Seq<char>>,
    pub kind: Option<Seq<char>>,
    pub episodes: Option<int>,
    pub status: Option<Seq<char>>,
    pub season: Option<crate::model::SeasonV>,
    pub picture: Option<Seq<char>>,
    pub thumbnail: Option<Seq<char>>,
    pub synonyms: Option<Seq<Seq<char>>>,
    pub related_anime: Option<Seq<Seq<char>>>,
    pub tags: Option<Seq<Seq<char>>>,
}

/// The accumulator that the parsed members so far stand for.
pub open spec fn mk_entry_acc(
    sources: Option<Vec<String>>,
    title: Option<String>,
    kind: Option<String>,
    episodes: Option<i32>,
    status: Option<String>,
    season: Option<crate::model::AnimeSeason>,
    picture: Option<String>,
    thumbnail: Option<String>,
    synonyms: Option<Vec<String>>,
    related_anime: Option<Vec<String>>,
    tags: Option<Vec<String>>,
) -> EntryAcc {
    EntryAcc {
        sources: opt_strs(sources),
        title: opt_str(title),
        kind: opt_str(kind),
        episodes: opt_int(episodes),
        status: opt_str(status),
        season: opt_season(season),
        picture: opt_str(picture),
        thumbnail: opt_str(thumbnail),
        synonyms: opt_strs(synonyms),
        related_anime: opt_strs(related_anime),
        tags: opt_strs(tags),
    }
}

/// One member of an entry object, whose key starts at `m`. The external
/// key spellings `type`, `animeSeason` and `relatedAnime` feed the
/// internal kind, season and related-anime fields; unknown keys are
/// skipped; a key seen twice is refused.
pub open spec fn spec_entry_member_at(s: Seq<char>, m: int, acc: EntryAcc) -> Result<
    (EntryAcc, int),
    Fault,
> {
    match spec_string(s, m) {
        Some(kp) => {
            let k2 = spec_ws(s, kp.1);
            if !(0 <= kp.1 <= s.len() && k2 < s.len() && s[k2] == ':') {
                Err(Fault::Bad)
            } else {
                let k3 = spec_ws(s, k2 + 1);
                let key = kp.0;
                if key == "sources"@ {
                    if acc.sources is Some {
                        Err(Fault::Bad)
                    } else {
                        match spec_str_array(s, k3) {
                            Ok(vp) => Ok((EntryAcc { sources: Some(vp.0), ..acc }, vp.1)),
                            Err(f) => Err(f),
                        }
                    }
                } else if key == "title"@ {
                    if acc.title is Some {
                        Err(Fault::Bad)
                    } else {
                        match spec_string(s, k3) {
                            Some(vp) => Ok((EntryAcc { title: Some(vp.0), ..acc }, vp.1)),
                            None => Err(Fault::Bad),
                        }
                    }
                } else if key == "type"@ {
                    if acc.kind is Some {
                        Err(Fault::Bad)
                    } else {
                        match spec_string(s, k3) {
                            Some(vp) => Ok((EntryAcc { kind: Some(vp.0), ..acc }, vp.1)),
                            None => Err(Fault::Bad),
                        }
                    }
                } else if key == "episodes"@ {
                    if acc.episodes is Some {
                        Err(Fault::Bad)
                    } else {
                        match spec_int(s, k3) {
                            Some(vp) => if i32::MIN <= vp.0 <= i32::MAX {
                                Ok((EntryAcc { episodes: Some(vp.0), ..acc }, vp.1))
                            } else {
                                Err(Fault::Bad)
                            },
                            None => Err(Fault::Bad),
                        }
                    }
                } else if key == "status"@ {
                    if acc.status is Some {
                        Err(Fault::Bad)
                    } else {
                        match spec_string(s, k3) {
                            Some(vp) => Ok((EntryAcc { status: Some(vp.0), ..acc }, vp.1)),
                            None => Err(Fault::Bad),
                        }
                    }
                } else if key == "animeSeason"@ {
                    if acc.season is Some {
                        Err(Fault::Bad)
                    } else {
                        match spec_season_obj(s, k3) {
                            Ok(vp) => Ok((EntryAcc { season: Some(vp.0), ..acc }, vp.1)),
                            Err(f) => Err(f),
                        }
                    }
                } else if key == "picture"@ {
                    if acc.picture is Some {
                        Err(Fault::Bad)
                    } else {
                        match spec_string(s, k3) {
                            Some(vp) => Ok((EntryAcc { picture: Some(vp.0), ..acc }, vp.1)),
                            None => Err(Fault::Bad),
                        }
                    }
                } else if key == "thumbnail"@ {
                    if acc.thumbnail is Some {
                        Err(Fault::Bad)
                    } else {
                        match spec_string(s, k3) {
                            Some(vp) => Ok((EntryAcc { thumbnail: Some(vp.0), ..acc }, vp.1)),
                            None => Err(Fault::Bad),
                        }
                    }
                } else if key == "synonyms"@ {
                    if acc.synonyms is Some {
                        Err(Fault::Bad)
                    } else {
                        match spec_str_array(s, k3) {
                            Ok(vp) => Ok((EntryAcc { synonyms: Some(vp.0), ..acc }, vp.1)),
                            Err(f) => Err(f),
                        }
                    }
                } else if key == "relatedAnime"@ {
                    if acc.related_anime is Some {
                        Err(Fault::Bad)
                    } else {
                        match spec_str_array(s, k3) {
                            Ok(vp) => Ok(
                                (EntryAcc { related_anime: Some(vp.0), ..acc }, vp.1),
                            ),
                            Err(f) => Err(f),
                        }
                    }
                } else if key == "tags"@ {
                    if acc.tags is Some {
                        Err(Fault::Bad)
                    } else {
                        match spec_str_array(s, k3) {
                            Ok(vp) => Ok((EntryAcc { tags: Some(vp.0), ..acc }, vp.1)),
                            Err(f) => Err(f),
                        }
                    }
                } else {
                    match spec_skip_value(s, k3) {
                        Some(e) => Ok((acc, e)),
                        None => Err(Fault::Bad),
                    }
                }
            }
        },
        None => Err(Fault::Bad),
    }
}

/// The members of an entry object from `i` to the closing `}`.
pub open spec fn spec_entry_members(s: Seq<char>, i: int, acc: EntryAcc, first: bool) -> Result<
    (EntryAcc, int),
    Fault,
>
    decreases s.len() - i when 0 <= i <= s.len()
{
    let j = spec_ws(s, i);
    if !(i <= j <= s.len()) {
        Err(Fault::Bad)
    } else if j >= s.len() {
        Err(Fault::Bad)
    } else if s[j] == '}' {
        Ok((acc, j + 1))
    } else {
        let m = if first {
            j
        } else if s[j] == ',' {
            spec_ws(s, j + 1)
        } else {
            s.len() as int + 1
        };
        if m > s.len() {
            Err(Fault::Bad)
        } else {
            match spec_entry_member_at(s, m, acc) {
                Ok(p) => if i < p.1 <= s.len() {
                    spec_entry_members(s, p.1, p.0, false)
                } else {
                    Err(Fault::Bad)
                },
                Err(f) => Err(f),
            }
        }
    }
}

/// The first required member of an entry that has not been seen, under
/// its external key spelling, if any. Only the year inside the season is
/// optional; every entry field itself is required.
pub open spec fn entry_missing(acc: EntryAcc) -> Option<Seq<char>> {
    if acc.sources is None {
        Some("sources"@)
    } else if acc.title is None {
        Some("title"@)
    } else if acc.kind is None {
        Some("type"@)
    } else if acc.episodes is None {
        Some("episodes"@)
    } else if acc.status is None {
        Some("status"@)
    } else if acc.season is None {
        Some("animeSeason"@)
    } else if acc.picture is None {
        Some("picture"@)
    } else if acc.thumbnail is None {
        Some("thumbnail"@)
    } else if acc.synonyms is None {
        Some("synonyms"@)
    } else if acc.related_anime is None {
        Some("relatedAnime"@)
    } else if acc.tags is None {
        Some("tags"@)
    } else {
        None
    }
}

/// The entry a complete accumulator stands for.
pub open spec fn entry_of_acc(acc: EntryAcc) -> crate::model::EntryV {
    crate::model::EntryV {
        sources: acc.sources->0,
        title: acc.title->0,
        kind: acc.kind->0,
        episodes: acc.episodes->0,
        status: acc.status->0,
        season: acc.season->0,
        picture: acc.picture->0,
        thumbnail: acc.thumbnail->0,
        synonyms: acc.synonyms->0,
        related_anime: acc.related_anime->0,
        tags: acc.tags->0,
    }
}

/// The entry object whose `{` stands at `i`.
pub open spec fn spec_entry_obj(s: Seq<char>, i: int) -> Result<(crate::model::EntryV, int), Fault> {
    if 0 <= i < s.len() && s[i] == '{' {
        match spec_entry_members(
            s,
            i + 1,
            (EntryAcc {
                sources: None,
                title: None,
                kind: None,
                episodes: None,
                status: None,
                season: None,
                picture: None,
                thumbnail: None,
                synonyms: None,
                related_anime: None,
                tags: None,
            }),
            true,
        ) {
            Ok(p) => match entry_missing(p.0) {
                None => Ok((entry_of_acc(p.0), p.1)),
                Some(f) => Err(Fault::Missing(f)),
            },
            Err(f) => Err(f),
        }
    } else {
        Err(Fault::Bad)
    }
}


} // verus!

verus! {

/// The entry members seen so far, as the decoder collects them.
pub struct EntryFields {
    pub sources: Option<Vec<String>>,
    pub title: Option<String>,
    pub kind: Option<String>,
    pub episodes: Option<i32>,
    pub status: Option<String>,
    pub season: Option<crate::model::AnimeSeason>,
    pub picture: Option<String>,
    pub thumbnail: Option<String>,
    pub synonyms: Option<Vec<String>>,
    pub related_anime: Option<Vec<String>>,
    pub tags: Option<Vec<String>>,
}

impl EntryFields {
    /// The accumulator these fields stand for.
    pub open spec fn acc(self) -> EntryAcc {
        mk_entry_acc(
            self.sources,
            self.title,
            self.kind,
            self.episodes,
            self.status,
            self.season,
            self.picture,
            self.thumbnail,
            self.synonyms,
            self.related_anime,
            self.tags,
        )
    }
}

/// Parses one member of an entry object, whose key starts at `m`, into
/// the collected fields.
#[verifier::loop_isolation(false)]
#[verifier::rlimit(60)]
pub(crate) fn entry_member(v: &Vec<char>, m: usize, f: &mut EntryFields) -> (r: Result<
    usize,
    DecodeError,
>)
    requires
        m <= v@.len(),
    ensures
        (match r {
            Ok(e) => spec_entry_member_at(v@, m as int, old(f).acc()) == Ok::<(EntryAcc, int), Fault>(
                (final(f).acc(), e as int),
            ) && m < e <= v@.len(),
            Err(e) => spec_entry_member_at(v@, m as int, old(f).acc()) == Err::<(EntryAcc, int), Fault>(fault_of(e)),
        }),
{
    let ghost s = v@;
    let n = v.len();
    let (key, k1) = match parse_string(v, m) {
        Ok(p) => p,
        Err(e) => {
            return Err(e);
        },
    };
    let k2 = skip_ws(v, k1);
    if k2 >= n || v[k2] != ':' {
        return Err(DecodeError::Malformed(k2));
    }
    let k3 = skip_ws(v, k2 + 1);
    if chars_eq(&key, "sources") {
        if f.sources.is_some() {
            return Err(DecodeError::Malformed(m));
        }
        let (val, e) = match parse_str_array(v, k3) {
            Ok(p) => p,
            Err(er) => {
                return Err(er);
            },
        };
        f.sources = Some(val);
        Ok(e)
    } else if chars_eq(&key, "title") {
        if f.title.is_some() {
            return Err(DecodeError::Malformed(m));
        }
        let (val, e) = match parse_string(v, k3) {
            Ok(p) => p,
            Err(er) => {
                return Err(er);
            },
        };
        f.title = Some(string_from_chars(&val));
        Ok(e)
    } else if chars_eq(&key, "type") {
        if f.kind.is_some() {
            return Err(DecodeError::Malformed(m));
        }
        let (val, e) = match parse_string(v, k3) {
            Ok(p) => p,
            Err(er) => {
                return Err(er);
            },
        };
        f.kind = Some(string_from_chars(&val));
        Ok(e)
    } else if chars_eq(&key, "episodes") {
        if f.episodes.is_some() {
            return Err(DecodeError::Malformed(m));
        }
        let (val, e) = match parse_i32(v, k3) {
            Ok(p) => p,
            Err(er) => {
                return Err(er);
            },
        };
        f.episodes = Some(val);
        Ok(e)
    } else if chars_eq(&key, "status") {
        if f.status.is_some() {
            return Err(DecodeError::Malformed(m));
        }
        let (val, e) = match parse_string(v, k3) {
            Ok(p) => p,
            Err(er) => {
                return Err(er);
            },
        };
        f.status = Some(string_from_chars(&val));
        Ok(e)
    } else if chars_eq(&key, "animeSeason") {
        if f.season.is_some() {
            return Err(DecodeError::Malformed(m));
        }
        let (val, e) = match parse_season(v, k3) {
            Ok(p) => p,
            Err(er) => {
                return Err(er);
            },
        };
        f.season = Some(val);
        Ok(e)
    } else if chars_eq(&key, "picture") {
        if f.picture.is_some() {
            return Err(DecodeError::Malformed(m));
        }
        let (val, e) = match parse_string(v, k3) {
            Ok(p) => p,
            Err(er) => {
                return Err(er);
            },
        };
        f.picture = Some(string_from_chars(&val));
        Ok(e)
    } else if chars_eq(&key, "thumbnail") {
        if f.thumbnail.is_some() {
            return Err(DecodeError::Malformed(m));
        }
        let (val, e) = match parse_string(v, k3) {
            Ok(p) => p,
            Err(er) => {
                return Err(er);
            },
        };
        f.thumbnail = Some(string_from_chars(&val));
        Ok(e)
    } else if chars_eq(&key, "synonyms") {
        if f.synonyms.is_some() {
            return Err(DecodeError::Malformed(m));
        }
        let (val, e) = match parse_str_array(v, k3) {
            Ok(p) => p,
            Err(er) => {
                return Err(er);
            },
        };
        f.synonyms = Some(val);
        Ok(e)
    } else if chars_eq(&key, "relatedAnime") {
        if f.related_anime.is_some() {
            return Err(DecodeError::Malformed(m));
        }
        let (val, e) = match parse_str_array(v, k3) {
            Ok(p) => p,
            Err(er) => {
                return Err(er);
            },
        };
        f.related_anime = Some(val);
        Ok(e)
    } else if chars_eq(&key, "tags") {
        if f.tags.is_some() {
            return Err(DecodeError::Malformed(m));
        }
        let (val, e) = match parse_str_array(v, k3) {
            Ok(p) => p,
            Err(er) => {
                return Err(er);
            },
        };
        f.tags = Some(val);
        Ok(e)
    } else {
        let e = match skip_value(v, k3) {
            Ok(e) => e,
            Err(er) => {
                return Err(er);
            },
        };
        Ok(e)
    }
}

/// Parses the entry object whose `{` stands at `i`.
#[verifier::loop_isolation(false)]
#[verifier::rlimit(60)]
pub(crate) fn parse_entry(v: &Vec<char>, i: usize) -> (r: Result<
    (crate::model::AnimeEntry, usize),
    DecodeError,
>)
    requires
        i <= v@.len(),
    ensures
        (match r {
            Ok(p) => spec_entry_obj(v@, i as int) == Ok::<(crate::model::EntryV, int), Fault>((p.0@, p.1 as int)) && i < p.1
                <= v@.len(),
            Err(e) => spec_entry_obj(v@, i as int) == Err::<(crate::model::EntryV, int), Fault>(fault_of(e)),
        }),
{
    let ghost s = v@;
    let n = v.len();
    if i >= n || v[i] != '{' {
        return Err(DecodeError::Malformed(i));
    }
    let mut f = EntryFields {
        sources: None,
        title: None,
        kind: None,
        episodes: None,
        status: None,
        season: None,
        picture: None,
        thumbnail: None,
        synonyms: None,
        related_anime: None,
        tags: None,
    };
    let ghost acc0 = f.acc();
    let mut k: usize = i + 1;
    let mut first: bool = true;
    loop
        invariant
            i + 1 <= k <= n,
            spec_entry_members(s, i + 1 as int, acc0, true) == spec_entry_members(
                s,
                k as int,
                f.acc(),
                first,
            ),
        decreases n - k,
    {
        let j = skip_ws(v, k);
        if j >= n {
            return Err(DecodeError::Malformed(j));
        }
        if v[j] == '}' {
            let sources = match f.sources {
                Some(x) => x,
                None => {
                    return Err(DecodeError::MissingField("sources"));
                },
            };
            let title = match f.title {
                Some(x) => x,
                None => {
                    return Err(DecodeError::MissingField("title"));
                },
            };
            let kind = match f.kind {
                Some(x) => x,
                None => {
                    return Err(DecodeError::MissingField("type"));
                },
            };
            let episodes = match f.episodes {
                Some(x) => x,
                None => {
                    return Err(DecodeError::MissingField("episodes"));
                },
            };
            let status = match f.status {
                Some(x) => x,
                None => {
                    return Err(DecodeError::MissingField("status"));
                },
            };
            let season = match f.season {
                Some(x) => x,
                None => {
                    return Err(DecodeError::MissingField("animeSeason"));
                },
            };
            let picture = match f.picture {
                Some(x) => x,
                None => {
                    return Err(DecodeError::MissingField("picture"));
                },
            };
            let thumbnail = match f.thumbnail {
                Some(x) => x,
                None => {
                    return Err(DecodeError::MissingField("thumbnail"));
                },
            };
            let synonyms = match f.synonyms {
                Some(x) => x,
                None => {
                    return Err(DecodeError::MissingField("synonyms"));
                },
            };
            let related_anime = match f.related_anime {
                Some(x) => x,
                None => {
                    return Err(DecodeError::MissingField("relatedAnime"));
                },
            };
            let tags = match f.tags {
                Some(x) => x,
                None => {
                    return Err(DecodeError::MissingField("tags"));
                },
            };
            let ent = crate::model::AnimeEntry {
                sources,
                title,
                kind,
                episodes,
                status,
                season,
                picture,
                thumbnail,
                synonyms,
                related_anime,
                tags,
            };
            return Ok((ent, j + 1));
        }
        let m: usize;
        if first {
            m = j;
        } else {
            if v[j] != ',' {
                return Err(DecodeError::Malformed(j));
            }
            m = skip_ws(v, j + 1);
        }
        match entry_member(v, m, &mut f) {
            Ok(e) => {
                k = e;
                first = false;
            },
            Err(er) => {
                return Err(er);
            },
        }
    }
}

} // verus!

verus! {

/// The elements of the entry array from `i` (right after `[` or after an
/// element) to the closing `]`.
pub open spec fn spec_entry_elems(
    s: Seq<char>,
    i: int,
    acc: Seq<crate::model::EntryV>,
    first: bool,
) -> Result<(Seq<crate::model::EntryV>, int), Fault>
    decreases s.len() - i when 0 <= i <= s.len()
{
    let j = spec_ws(s, i);
    if !(i <= j <= s.len()) {
        Err(Fault::Bad)
    } else if j >= s.len() {
        Err(Fault::Bad)
    } else if s[j] == ']' {
        Ok((acc, j + 1))
    } else {
        let m = if first {
            j
        } else if s[j] == ',' {
            spec_ws(s, j + 1)
        } else {
            s.len() as int + 1
        };
        if m > s.len() {
            Err(Fault::Bad)
        } else {
            match spec_entry_obj(s, m) {
                Ok(p) => if i < p.1 <= s.len() {
                    spec_entry_elems(s, p.1, acc.push(p.0), false)
                } else {
                    Err(Fault::Bad)
                },
                Err(f) => Err(f),
            }
        }
    }
}

/// The entry array whose `[` stands at `i`.
pub open spec fn spec_entry_array(s: Seq<char>, i: int) -> Result<
    (Seq<crate::model::EntryV>, int),
    Fault,
> {
    if 0 <= i < s.len() && s[i] == '[' {
        spec_entry_elems(s, i + 1, Seq::empty(), true)
    } else {
        Err(Fault::Bad)
    }
}

/// Parses the entry array whose `[` stands at `i`.
#[verifier::loop_isolation(false)]
pub(crate) fn parse_entries(v: &Vec<char>, i: usize) -> (r: Result<
    (Vec<crate::model::AnimeEntry>, usize),
    DecodeError,
>)
    requires
        i <= v@.len(),
    ensures
        (match r {
            Ok(p) => spec_entry_array(v@, i as int) == Ok::<(Seq<crate::model::EntryV>, int), Fault>(
                (crate::model::entry_views(p.0@), p.1 as int),
            ) && i < p.1 <= v@.len(),
            Err(e) => spec_entry_array(v@, i as int) == Err::<(Seq<crate::model::EntryV>, int), Fault>(fault_of(e)),
        }),
{
    let ghost s = v@;
    let n = v.len();
    if i >= n || v[i] != '[' {
        return Err(DecodeError::Malformed(i));
    }
    let mut out: Vec<crate::model::AnimeEntry> = Vec::new();
    let mut k: usize = i + 1;
    let mut first: bool = true;
    proof {
        assert(crate::model::entry_views(out@) =~= Seq::<crate::model::EntryV>::empty());
    }
    loop
        invariant
            i + 1 <= k <= n,
            spec_entry_elems(s, i + 1 as int, Seq::empty(), true) == spec_entry_elems(
                s,
                k as int,
                crate::model::entry_views(out@),
                first,
            ),
        decreases n - k,
    {
        let ghost acc_cur = crate::model::entry_views(out@);
        let j = skip_ws(v, k);
        if j >= n {
            return Err(DecodeError::Malformed(j));
        }
        if v[j] == ']' {
            return Ok((out, j + 1));
        }
        let m: usize;
        if first {
            m = j;
        } else {
            if v[j] != ',' {
                return Err(DecodeError::Malformed(j));
            }
            m = skip_ws(v, j + 1);
        }
        let (ent, e) = match parse_entry(v, m) {
            Ok(p) => p,
            Err(er) => {
                return Err(er);
            },
        };
        out.push(ent);
        proof {
            assert(crate::model::entry_views(out@) =~= acc_cur.push(out@[out@.len() - 1]@));
        }
        k = e;
        first = false;
    }
}

/// What has been seen of the root object so far.
pub ghost struct RootAcc {
    pub license: Option<crate::model::LicenseV>,
    pub repository: Option<Seq<char>>,
    pub last_update: Option<Seq<char>>,
    pub entries: Option<Seq<crate::model::EntryV>>,
}

/// View of an optional parsed license.
pub open spec fn opt_license(o: Option<crate::model::License>) -> Option<crate::model::LicenseV> {
    match o {
        Some(x) => Some(x@),
        None => None,
    }
}

/// View of an optional parsed entry list.
pub open spec fn opt_entries(o: Option<Vec<crate::model::AnimeEntry>>) -> Option<
    Seq<crate::model::EntryV>,
> {
    match o {
        Some(x) => Some(crate::model::entry_views(x@)),
        None => None,
    }
}

/// One member of the root object, whose key starts at `m`: the license
/// object, the repository string, the `lastUpdate` string, or the `data`
/// array of entries; unknown keys are skipped.
pub open spec fn spec_root_member_at(s: Seq<char>, m: int, acc: RootAcc) -> Result<(RootAcc, int), Fault> {
    match spec_string(s, m) {
        Some(kp) => {
            let k2 = spec_ws(s, kp.1);
            if !(0 <= kp.1 <= s.len() && k2 < s.len() && s[k2] == ':') {
                Err(Fault::Bad)
            } else {
                let k3 = spec_ws(s, k2 + 1);
                let key = kp.0;
                if key == "license"@ {
                    if acc.license is Some {
                        Err(Fault::Bad)
                    } else {
                        match spec_license_obj(s, k3) {
                            Ok(vp) => Ok((RootAcc { license: Some(vp.0), ..acc }, vp.1)),
                            Err(f) => Err(f),
                        }
                    }
                } else if key == "repository"@ {
                    if acc.repository is Some {
                        Err(Fault::Bad)
                    } else {
                        match spec_string(s, k3) {
                            Some(vp) => Ok((RootAcc { repository: Some(vp.0), ..acc }, vp.1)),
                            None => Err(Fault::Bad),
                        }
                    }
                } else if key == "lastUpdate"@ {
                    if acc.last_update is Some {
                        Err(Fault::Bad)
                    } else {
                        match spec_string(s, k3) {
                            Some(vp) => Ok((RootAcc { last_update: Some(vp.0), ..acc }, vp.1)),
                            None => Err(Fault::Bad),
                        }
                    }
                } else if key == "data"@ {
                    if acc.entries is Some {
                        Err(Fault::Bad)
                    } else {
                        match spec_entry_array(s, k3) {
                            Ok(vp) => Ok((RootAcc { entries: Some(vp.0), ..acc }, vp.1)),
                            Err(f) => Err(f),
                        }
                    }
                } else {
                    match spec_skip_value(s, k3) {
                        Some(e) => Ok((acc, e)),
                        None => Err(Fault::Bad),
                    }
                }
            }
        },
        None => Err(Fault::Bad),
    }
}

/// The members of the root object from `i` to the closing `}`.
pub open spec fn spec_root_members(s: Seq<char>, i: int, acc: RootAcc, first: bool) -> Result<
    (RootAcc, int),
    Fault,
>
    decreases s.len() - i when 0 <= i <= s.len()
{
    let j = spec_ws(s, i);
    if !(i <= j <= s.len()) {
        Err(Fault::Bad)
    } else if j >= s.len() {
        Err(Fault::Bad)
    } else if s[j] == '}' {
        Ok((acc, j + 1))
    } else {
        let m = if first {
            j
        } else if s[j] == ',' {
            spec_ws(s, j + 1)
        } else {
            s.len() as int + 1
        };
        if m > s.len() {
            Err(Fault::Bad)
        } else {
            match spec_root_member_at(s, m, acc) {
                Ok(p) => if i < p.1 <= s.len() {
                    spec_root_members(s, p.1, p.0, false)
                } else {
                    Err(Fault::Bad)
                },
                Err(f) => Err(f),
            }
        }
    }
}

/// The root object whose `{` stands at `i`: license, repository,
/// lastUpdate and data are all required.
pub open spec fn spec_root_obj(s: Seq<char>, i: int) -> Result<(crate::model::DocV, int), Fault> {
    if 0 <= i < s.len() && s[i] == '{' {
        match spec_root_members(
            s,
            i + 1,
            (RootAcc { license: None, repository: None, last_update: None, entries: None }),
            true,
        ) {
            Ok(p) => if p.0.license is None {
                Err(Fault::Missing("license"@))
            } else if p.0.repository is None {
                Err(Fault::Missing("repository"@))
            } else if p.0.last_update is None {
                Err(Fault::Missing("lastUpdate"@))
            } else if p.0.entries is None {
                Err(Fault::Missing("data"@))
            } else {
                Ok(
                    (
                        crate::model::DocV {
                            license: p.0.license->0,
                            repository: p.0.repository->0,
                            last_update: p.0.last_update->0,
                            entries: p.0.entries->0,
                        },
                        p.1,
                    ),
                )
            },
            Err(f) => Err(f),
        }
    } else {
        Err(Fault::Bad)
    }
}

/// Parses the root object whose `{` stands at `i`.
#[verifier::loop_isolation(false)]
#[verifier::rlimit(60)]
pub(crate) fn parse_root(v: &Vec<char>, i: usize) -> (r: Result<
    (crate::model::AnimeDatabase, usize),
    DecodeError,
>)
    requires
        i <= v@.len(),
    ensures
        (match r {
            Ok(p) => spec_root_obj(v@, i as int) == Ok::<(crate::model::DocV, int), Fault>((p.0@, p.1 as int)) && i < p.1
                <= v@.len(),
            Err(e) => spec_root_obj(v@, i as int) == Err::<(crate::model::DocV, int), Fault>(fault_of(e)),
        }),
{
    let ghost s = v@;
    let n = v.len();
    if i >= n || v[i] != '{' {
        return Err(DecodeError::Malformed(i));
    }
    let mut license_f: Option<crate::model::License> = None;
    let mut repository_f: Option<String> = None;
    let mut last_update_f: Option<String> = None;
    let mut data_f: Option<Vec<crate::model::AnimeEntry>> = None;
    let mut k: usize = i + 1;
    let mut first: bool = true;
    let ghost acc0 = RootAcc { license: None, repository: None, last_update: None, entries: None };
    loop
        invariant
            i + 1 <= k <= n,
            spec_root_members(s, i + 1 as int, acc0, true) == spec_root_members(
                s,
                k as int,
                (RootAcc {
                    license: opt_license(license_f),
                    repository: opt_str(repository_f),
                    last_update: opt_str(last_update_f),
                    entries: opt_entries(data_f),
                }),
                first,
            ),
        decreases n - k,
    {
        let ghost acc_cur = RootAcc {
            license: opt_license(license_f),
            repository: opt_str(repository_f),
            last_update: opt_str(last_update_f),
            entries: opt_entries(data_f),
        };
        let j = skip_ws(v, k);
        if j >= n {
            return Err(DecodeError::Malformed(j));
        }
        if v[j] == '}' {
            let license = match license_f {
                Some(x) => x,
                None => {
                    return Err(DecodeError::MissingField("license"));
                },
            };
            let repository = match repository_f {
                Some(x) => x,
                None => {
                    return Err(DecodeError::MissingField("repository"));
                },
            };
            let last_update = match last_update_f {
                Some(x) => x,
                None => {
                    return Err(DecodeError::MissingField("lastUpdate"));
                },
            };
            let data = match data_f {
                Some(x) => x,
                None => {
                    return Err(DecodeError::MissingField("data"));
                },
            };
            let doc = crate::model::AnimeDatabase { license, repository, last_update, data };
            return Ok((doc, j + 1));
        }
        let m: usize;
        if first {
            m = j;
        } else {
            if v[j] != ',' {
                return Err(DecodeError::Malformed(j));
            }
            m = skip_ws(v, j + 1);
        }
        let (key, k1) = match parse_string(v, m) {
            Ok(p) => p,
            Err(e) => {
                return Err(e);
            },
        };
        let k2 = skip_ws(v, k1);
        if k2 >= n || v[k2] != ':' {
            return Err(DecodeError::Malformed(k2));
        }
        let k3 = skip_ws(v, k2 + 1);
        if chars_eq(&key, "license") {
            if license_f.is_some() {
                return Err(DecodeError::Malformed(m));
            }
            let (val, e) = match parse_license(v, k3) {
                Ok(p) => p,
                Err(er) => {
                    return Err(er);
                },
            };
            license_f = Some(val);
            k = e;
            first = false;
        } else if chars_eq(&key, "repository") {
            if repository_f.is_some() {
                return Err(DecodeError::Malformed(m));
            }
            let (val, e) = match parse_string(v, k3) {
                Ok(p) => p,
                Err(er) => {
                    return Err(er);
                },
            };
            repository_f = Some(string_from_chars(&val));
            k = e;
            first = false;
        } else if chars_eq(&key, "lastUpdate") {
            if last_update_f.is_some() {
                return Err(DecodeError::Malformed(m));
            }
            let (val, e) = match parse_string(v, k3) {
                Ok(p) => p,
                Err(er) => {
                    return Err(er);
                },
            };
            last_update_f = Some(string_from_chars(&val));
            k = e;
            first = false;
        } else if chars_eq(&key, "data") {
            if data_f.is_some() {
                return Err(DecodeError::Malformed(m));
            }
            let (val, e) = match parse_entries(v, k3) {
                Ok(p) => p,
                Err(er) => {
                    return Err(er);
                },
            };
            data_f = Some(val);
            k = e;
            first = false;
        } else {
            let e = match skip_value(v, k3) {
                Ok(e) => e,
                Err(er) => {
                    return Err(er);
                },
            };
            k = e;
            first = false;
        }
    }
}

/// What the whole text decodes to: optional leading and trailing
/// whitespace around the root object, and nothing else; or the class of
/// the first fault — a named missing member, or a malformation.
pub open spec fn spec_decode(s: Seq<char>) -> Result<crate::model::DocV, Fault> {
    let j = spec_ws(s, 0);
    if !(0 <= j <= s.len()) {
        Err(Fault::Bad)
    } else {
        match spec_root_obj(s, j) {
            Ok(p) => if 0 <= p.1 <= s.len() && spec_ws(s, p.1) == s.len() {
                Ok(p.0)
            } else {
                Err(Fault::Bad)
            },
            Err(f) => Err(f),
        }
    }
}

/// Decodes the catalog document from JSON text, all-or-nothing: the typed
/// document exactly as the grammar gives it, or the first fault. No
/// partial result is ever returned, and the error's class is pinned: a
/// `MissingField` error names exactly the member the grammar found
/// absent, every other error reports a malformation.
pub fn decode_document(text: &str) -> (r: Result<crate::model::AnimeDatabase, DecodeError>)
    ensures
        (match r {
            Ok(d) => spec_decode(text@) == Ok::<crate::model::DocV, Fault>(d@),
            Err(e) => spec_decode(text@) == Err::<crate::model::DocV, Fault>(fault_of(e)),
        }),
{
    let v = to_chars(text);
    let n = v.len();
    let j = skip_ws(&v, 0);
    let (doc, e) = match parse_root(&v, j) {
        Ok(p) => p,
        Err(er) => {
            return Err(er);
        },
    };
    let k = skip_ws(&v, e);
    if k != n {
        return Err(DecodeError::Malformed(k));
    }
    Ok(doc)
}

} // verus!
