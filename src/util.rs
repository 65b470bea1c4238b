//! Decoders and encoders for integers that travel as decimal strings.
use vstd::prelude::*;

verus! {

/// Why a primitive encoded as text could not be decoded.
#[derive(Clone, Debug, PartialEq, Eq)]
pub enum WireError {
    /// The text is not a decimal integer in the target range.
    MalformedInteger(String),
    /// The text is not a time stamp in one of the accepted forms.
    MalformedTimestamp(String),
}

/// The mathematical value of a `WireError`.
pub enum WireFailure {
    MalformedInteger(Seq<char>),
    MalformedTimestamp(Seq<char>),
}

impl View for WireError {
    type V = WireFailure;

    open spec fn view(&self) -> WireFailure {
        match self {
            WireError::MalformedInteger(t) => WireFailure::MalformedInteger(t@),
            WireError::MalformedTimestamp(t) => WireFailure::MalformedTimestamp(t@),
        }
    }
}

/// Whether `c` is one of the ASCII digits `0` to `9`.
pub open spec fn is_digit(c: char) -> bool {
    '0' <= c && c <= '9'
}

/// The value of the ASCII digit `c`.
pub open spec fn digit_of(c: char) -> int {
    c as int - '0' as int
}

/// Whether `s` is a non-empty run of ASCII digits.
pub open spec fn all_digits(s: Seq<char>) -> bool {
    s.len() > 0 && forall|i: int| 0 <= i < s.len() ==> is_digit(#[trigger] s[i])
}

/// The value of a run of digits, most significant first.
pub open spec fn digits_value(s: Seq<char>) -> nat
    decreases s.len(),
{
    if s.len() == 0 {
        0
    } else {
        digits_value(s.drop_last()) * 10 + digit_of(s.last()) as nat
    }
}

/// The integer that `s` denotes in base ten: an optional `+` or `-`, then one
/// or more digits. `None` where `s` has any other shape.
pub open spec fn signed_decimal(s: Seq<char>) -> Option<int> {
    if s.len() > 0 && s[0] == '-' && all_digits(s.skip(1)) {
        Some(-(digits_value(s.skip(1)) as int))
    } else if s.len() > 0 && s[0] == '+' && all_digits(s.skip(1)) {
        Some(digits_value(s.skip(1)) as int)
    } else if all_digits(s) {
        Some(digits_value(s) as int)
    } else {
        None
    }
}

/// The natural number that `s` denotes in base ten: an optional `+`, then one
/// or more digits. `None` where `s` has any other shape, a `-` included.
pub open spec fn unsigned_decimal(s: Seq<char>) -> Option<nat> {
    if s.len() > 0 && s[0] == '+' && all_digits(s.skip(1)) {
        Some(digits_value(s.skip(1)))
    } else if all_digits(s) {
        Some(digits_value(s))
    } else {
        None
    }
}

/// Whether `r` is the error that reports `s` as a malformed integer.
pub open spec fn rejects_integer<T>(r: Result<T, WireError>, s: Seq<char>) -> bool {
    &&& r is Err
    &&& r->Err_0 is MalformedInteger
    &&& r->Err_0->MalformedInteger_0@ == s
}

/// What decoding `s` as an `i64` gives: its value where `s` is a decimal
/// integer in range, the malformed-integer error otherwise.
pub open spec fn decodes_i64(r: Result<i64, WireError>, s: Seq<char>) -> bool {
    match signed_decimal(s) {
        Some(v) if i64::MIN <= v <= i64::MAX => r == Ok::<i64, WireError>(v as i64),
        _ => rejects_integer(r, s),
    }
}

/// What decoding `s` as a `u64` gives: its value where `s` is an unsigned
/// decimal integer in range, the malformed-integer error otherwise.
pub open spec fn decodes_u64(r: Result<u64, WireError>, s: Seq<char>) -> bool {
    match unsigned_decimal(s) {
        Some(v) if v <= u64::MAX => r == Ok::<u64, WireError>(v as u64),
        _ => rejects_integer(r, s),
    }
}

/// The magnitude of `v`.
pub open spec fn abs(v: int) -> nat {
    if v < 0 {
        (-v) as nat
    } else {
        v as nat
    }
}

/// What decoding `s` as a signed integer and dropping its sign gives: the
/// magnitude of its value where `s` is a decimal integer in the range of
/// `i64`, the malformed-integer error otherwise. The magnitude of `i64::MIN`
/// is `2^63`, which `u64` holds.
pub open spec fn decodes_u64_dropping_sign(r: Result<u64, WireError>, s: Seq<char>) -> bool {
    match signed_decimal(s) {
        Some(v) if i64::MIN <= v <= i64::MAX => r == Ok::<u64, WireError>(abs(v) as u64),
        _ => rejects_integer(r, s),
    }
}

/// The ASCII digit for `d`, which is below ten.
pub open spec fn digit_char(d: nat) -> char {
    seq!['0', '1', '2', '3', '4', '5', '6', '7', '8', '9'][d as int]
}

/// The canonical decimal text of `n`: no sign and no leading zero.
pub open spec fn decimal_text(n: nat) -> Seq<char>
    decreases n,
{
    if n < 10 {
        seq![digit_char(n)]
    } else {
        decimal_text(n / 10).push(digit_char(n % 10))
    }
}

/// The canonical decimal text of `v`: a `-` before a negative value, then its
/// magnitude.
pub open spec fn signed_text(v: int) -> Seq<char> {
    if v < 0 {
        seq!['-'] + decimal_text(abs(v))
    } else {
        decimal_text(abs(v))
    }
}

proof fn lemma_digit_char(d: nat)
    requires
        d < 10,
    ensures
        is_digit(digit_char(d)),
        digit_of(digit_char(d)) == d,
{
    assert(d == 0 || d == 1 || d == 2 || d == 3 || d == 4 || d == 5 || d == 6 || d == 7 || d == 8
        || d == 9);
}

/// The canonical decimal text of `n` is a run of digits that denotes `n`.
proof fn lemma_decimal_text(n: nat)
    ensures
        all_digits(decimal_text(n)),
        digits_value(decimal_text(n)) == n,
    decreases n,
{
    if n < 10 {
        lemma_digit_char(n);
        let t = decimal_text(n);
        assert(t.drop_last() =~= Seq::<char>::empty());
        assert(digits_value(t.drop_last()) == 0);
    } else {
        lemma_decimal_text(n / 10);
        lemma_digit_char(n % 10);
        let t = decimal_text(n);
        assert(t.drop_last() =~= decimal_text(n / 10));
        assert(t.last() == digit_char(n % 10));
        assert(digits_value(t) == digits_value(decimal_text(n / 10)) * 10 + (n % 10));
        assert forall|i: int| 0 <= i < t.len() implies is_digit(#[trigger] t[i]) by {
            if i < t.len() - 1 {
                assert(t[i] == decimal_text(n / 10)[i]);
            }
        }
    }
}

/// Decoding the canonical text of a natural number gives that number back.
pub proof fn lemma_unsigned_round_trip(n: nat)
    ensures
        unsigned_decimal(decimal_text(n)) == Some(n),
{
    lemma_decimal_text(n);
    let t = decimal_text(n);
    assert(is_digit(t[0]));
}

/// Decoding the canonical text of an integer gives that integer back.
pub proof fn lemma_signed_round_trip(v: int)
    ensures
        signed_decimal(signed_text(v)) == Some(v),
{
    lemma_decimal_text(abs(v));
    let t = signed_text(v);
    if v < 0 {
        assert(t.skip(1) =~= decimal_text(abs(v)));
    } else {
        assert(is_digit(t[0]));
    }
}

/// An `i64` written in canonical decimal decodes to itself.
pub proof fn lemma_i64_round_trip(v: i64, r: Result<i64, WireError>)
    requires
        decodes_i64(r, signed_text(v as int)),
    ensures
        r == Ok::<i64, WireError>(v),
{
    lemma_signed_round_trip(v as int);
}

/// A `u64` written in canonical decimal decodes to itself.
pub proof fn lemma_u64_round_trip(v: u64, r: Result<u64, WireError>)
    requires
        decodes_u64(r, decimal_text(v as nat)),
    ensures
        r == Ok::<u64, WireError>(v),
{
    lemma_unsigned_round_trip(v as nat);
}

/// Decoding the canonical text of an `i64` and dropping the sign gives its
/// magnitude.
pub proof fn lemma_dropping_sign_gives_magnitude(v: i64, r: Result<u64, WireError>)
    requires
        decodes_u64_dropping_sign(r, signed_text(v as int)),
    ensures
        r == Ok::<u64, WireError>(abs(v as int) as u64),
{
    lemma_signed_round_trip(v as int);
}

/// Text that is no decimal integer, the empty text among them, is rejected as
/// a malformed integer by both the signed and the unsigned decoding.
pub proof fn lemma_malformed_integer_rejected(
    s: Seq<char>,
    signed: Result<i64, WireError>,
    unsigned: Result<u64, WireError>,
)
    requires
        signed_decimal(s) is None,
        decodes_i64(signed, s),
        decodes_u64(unsigned, s),
    ensures
        rejects_integer(signed, s),
        rejects_integer(unsigned, s),
        signed_decimal(Seq::<char>::empty()) is None,
{
}

/// A prefix of a run of digits never denotes more than the whole run.
proof fn lemma_prefix_value_le(s: Seq<char>, k: int)
    requires
        0 <= k <= s.len(),
        forall|i: int| 0 <= i < s.len() ==> is_digit(#[trigger] s[i]),
    ensures
        digits_value(s.subrange(0, k)) <= digits_value(s),
    decreases s.len(),
{
    if k < s.len() {
        let t = s.drop_last();
        assert(t.subrange(0, k) =~= s.subrange(0, k));
        lemma_prefix_value_le(t, k);
        assert(is_digit(s[s.len() - 1]));
    } else {
        assert(s.subrange(0, k) =~= s);
    }
}

/// Reads the digits of `bytes` from `start` on, which hold `s` from `start`
/// on, as a value of at most `bound`.
fn read_digits(bytes: &[u8], start: usize, bound: u64, Ghost(s): Ghost<Seq<char>>) -> (r: Option<u64>)
    requires
        start < bytes@.len(),
        bytes@.len() == s.len(),
        bound >= 9,
        forall|i: int| 0 <= i < s.len() ==> #[trigger] bytes@[i] as int == s[i] as int,
    ensures
        match r {
            Some(v) => all_digits(s.skip(start as int)) && v == digits_value(s.skip(start as int))
                && v <= bound,
            None => !all_digits(s.skip(start as int)) || digits_value(s.skip(start as int)) > bound,
        },
{
    let n = bytes.len();
    let ghost t = s.skip(start as int);
    let mut acc: u64 = 0;
    let mut i: usize = start;
    while i < n
        invariant
            start <= i <= n,
            n == bytes@.len(),
            n == s.len(),
            t == s.skip(start as int),
            forall|j: int| 0 <= j < s.len() ==> #[trigger] bytes@[j] as int == s[j] as int,
            forall|j: int| 0 <= j < i - start ==> is_digit(#[trigger] t[j]),
            acc == digits_value(t.subrange(0, i - start)),
            acc <= bound,
            bound >= 9,
        decreases n - i,
    {
        let b = bytes[i];
        proof {
            assert(t[i - start] == s[i as int]);
        }
        if b < 48 || b > 57 {
            assert(!is_digit(t[i - start]));
            return None;
        }
        let d = (b - 48) as u64;
        proof {
            assert(is_digit(t[i - start]));
            assert(digit_of(t[i - start]) == d);
            assert(t.subrange(0, i - start + 1).drop_last() =~= t.subrange(0, i - start));
        }
        if acc > (bound - d) / 10 {
            proof {
                assert(digits_value(t.subrange(0, i - start + 1)) > bound);
                if all_digits(t) {
                    lemma_prefix_value_le(t, i - start + 1);
                }
            }
            return None;
        }
        acc = acc * 10 + d;
        i = i + 1;
    }
    proof {
        assert(t.subrange(0, n - start) =~= t);
    }
    Some(acc)
}

/// Text that denotes an integer is made of ASCII characters alone.
proof fn lemma_decimal_is_ascii(s: Seq<char>)
    requires
        signed_decimal(s) is Some,
    ensures
        vstd::utf8::is_ascii_chars(s),
{
    assert forall|i: int| 0 <= i < s.len() implies '\0' <= #[trigger] s[i] <= '\u{7f}' by {
        if i > 0 && (s[0] == '-' || s[0] == '+') && all_digits(s.skip(1)) {
            assert(s[i] == s.skip(1)[i - 1]);
            assert(is_digit(s.skip(1)[i - 1]));
        } else if all_digits(s) {
            assert(is_digit(s[i]));
        }
    }
}

/// The bytes of `s` where it is all ASCII, one per character.
fn ascii_bytes(s: &str) -> (r: Option<&[u8]>)
    ensures
        r is None ==> signed_decimal(s@) is None && unsigned_decimal(s@) is None,
        r matches Some(b) ==> b@.len() == s@.len() && forall|i: int|
            0 <= i < s@.len() ==> #[trigger] b@[i] as int == s@[i] as int,
{
    if !s.is_ascii() {
        proof {
            if signed_decimal(s@) is Some {
                lemma_decimal_is_ascii(s@);
            }
        }
        return None;
    }
    let b = s.as_bytes();
    proof {
        broadcast use vstd::string::is_ascii_spec_bytes, vstd::utf8::is_ascii_chars_nat_bound;
        assert forall|i: int| 0 <= i < s@.len() implies #[trigger] b@[i] as int == s@[i] as int by {
            assert((s@[i] as nat) < 128);
            assert(b@[i] == s@[i] as u8);
        }
    }
    Some(b)
}

/// The error that reports `s` as a malformed integer.
fn malformed_integer(s: &str) -> (e: WireError)
    ensures
        e is MalformedInteger,
        e->MalformedInteger_0@ == s@,
{
    WireError::MalformedInteger(s.to_owned())
}

/// Parses `s` as a signed 64-bit integer in base ten: an optional sign, then
/// one or more digits. Any other text, and a value out of range, is a
/// malformed integer.
pub fn parse_i64(s: &str) -> (r: Result<i64, WireError>)
    ensures
        decodes_i64(r, s@),
{
    let bytes = match ascii_bytes(s) {
        Some(b) => b,
        None => return Err(malformed_integer(s)),
    };
    let n = bytes.len();
    if n == 0 {
        return Err(malformed_integer(s));
    }
    if bytes[0] == 45 || bytes[0] == 43 {
        let negative = bytes[0] == 45;
        if n == 1 {
            return Err(malformed_integer(s));
        }
        let bound: u64 = if negative { 9223372036854775808 } else { 9223372036854775807 };
        match read_digits(bytes, 1, bound, Ghost(s@)) {
            Some(m) => {
                if !negative {
                    Ok(m as i64)
                } else if m == 9223372036854775808 {
                    Ok(i64::MIN)
                } else {
                    Ok(-(m as i64))
                }
            },
            None => Err(malformed_integer(s)),
        }
    } else {
        proof {
            assert(s@.skip(0) =~= s@);
        }
        match read_digits(bytes, 0, 9223372036854775807, Ghost(s@)) {
            Some(m) => Ok(m as i64),
            None => Err(malformed_integer(s)),
        }
    }
}

/// Parses `s` as an unsigned 64-bit integer in base ten: an optional `+`, then
/// one or more digits. Any other text, a `-` included, and a value out of
/// range, is a malformed integer.
pub fn parse_u64(s: &str) -> (r: Result<u64, WireError>)
    ensures
        decodes_u64(r, s@),
{
    let bytes = match ascii_bytes(s) {
        Some(b) => b,
        None => return Err(malformed_integer(s)),
    };
    let n = bytes.len();
    if n == 0 {
        return Err(malformed_integer(s));
    }
    if bytes[0] == 43 {
        if n == 1 {
            return Err(malformed_integer(s));
        }
        match read_digits(bytes, 1, u64::MAX, Ghost(s@)) {
            Some(m) => Ok(m),
            None => Err(malformed_integer(s)),
        }
    } else {
        proof {
            assert(s@.skip(0) =~= s@);
        }
        match read_digits(bytes, 0, u64::MAX, Ghost(s@)) {
            Some(m) => Ok(m),
            None => Err(malformed_integer(s)),
        }
    }
}

/// Parses `s` as a signed 64-bit integer in base ten and drops its sign,
/// for values that should be unsigned but are sometimes sent with a `-`.
pub fn u64_from_i64_from_str(s: &str) -> (r: Result<u64, WireError>)
    ensures
        decodes_u64_dropping_sign(r, s@),
{
    match parse_i64(s) {
        Ok(v) => {
            if v >= 0 {
                Ok(v as u64)
            } else if v == i64::MIN {
                Ok(9223372036854775808)
            } else {
                Ok((-v) as u64)
            }
        },
        Err(e) => Err(e),
    }
}

/// Parses `s` as an unsigned 64-bit integer in base ten.
pub fn u64_from_str(s: &str) -> (r: Result<u64, WireError>)
    ensures
        decodes_u64(r, s@),
{
    parse_u64(s)
}

/// The text of the digit `d`, which is below ten.
fn digit_str(d: u64) -> (r: &'static str)
    requires
        d < 10,
    ensures
        r@ == seq![digit_char(d as nat)],
{
    proof {
        reveal_strlit("0");
        reveal_strlit("1");
        reveal_strlit("2");
        reveal_strlit("3");
        reveal_strlit("4");
        reveal_strlit("5");
        reveal_strlit("6");
        reveal_strlit("7");
        reveal_strlit("8");
        reveal_strlit("9");
    }
    match d {
        0 => "0",
        1 => "1",
        2 => "2",
        3 => "3",
        4 => "4",
        5 => "5",
        6 => "6",
        7 => "7",
        8 => "8",
        _ => "9",
    }
}

/// Writes `value` as its canonical decimal text: no sign, no leading zero.
pub fn u64_to_str(value: &u64) -> (r: String)
    ensures
        r@ == decimal_text(*value as nat),
    decreases *value,
{
    let v = *value;
    let digit = digit_str(v % 10);
    if v < 10 {
        digit.to_owned()
    } else {
        let head = u64_to_str(&(v / 10));
        head.concat(digit)
    }
}

} // verus!
