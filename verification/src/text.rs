use vstd::prelude::*;
use vstd::string::*;
use base64::Engine;

verus! {

/// What the base64 standard-alphabet no-padding encoding of some bytes looks
/// like; a function of the bytes alone.
pub uninterp spec fn spec_base64_nopad_encode(data: Seq<u8>) -> Seq<char>;

/// What base64 standard-alphabet no-padding decoding makes of some text, and
/// whether it accepts it at all; a function of the text alone.
pub uninterp spec fn spec_base64_nopad_decode(text: Seq<char>) -> Option<Seq<u8>>;

/// Whether some bytes are valid UTF-8, and the characters they decode to; a
/// function of the bytes alone.
pub uninterp spec fn spec_utf8_decode(bytes: Seq<u8>) -> Option<Seq<char>>;

/// Whether a character counts as whitespace under Unicode's `White_Space`
/// property; a function of the character alone.
pub uninterp spec fn spec_is_whitespace(c: char) -> bool;

/// Relies on base64's `STANDARD_NO_PAD` engine: the encoding is a pure
/// function of the input bytes.
#[verifier::external_body]
pub(crate) fn base64_nopad_encode(data: &[u8]) -> (r: String)
    ensures
        r@ == spec_base64_nopad_encode(data@),
{
    base64::engine::general_purpose::STANDARD_NO_PAD.encode(data)
}

/// Relies on base64's `STANDARD_NO_PAD` engine: whether text decodes, and to
/// which bytes, is a pure function of the text.
#[verifier::external_body]
pub(crate) fn base64_nopad_decode(text: &str) -> (r: Result<Vec<u8>, String>)
    ensures
        r is Ok <==> spec_base64_nopad_decode(text@) is Some,
        r matches Ok(v) ==> v@ == spec_base64_nopad_decode(text@).unwrap(),
{
    match base64::engine::general_purpose::STANDARD_NO_PAD.decode(text) {
        Ok(v) => Ok(v),
        Err(e) => Err(format!("{}", e)),
    }
}

/// Relies on `String::from_utf8`: whether bytes decode, and to what, is a
/// pure function of the bytes.
#[verifier::external_body]
pub(crate) fn utf8_to_string(bytes: Vec<u8>) -> (r: Result<String, String>)
    ensures
        r is Ok <==> spec_utf8_decode(bytes@) is Some,
        r matches Ok(s) ==> s@ == spec_utf8_decode(bytes@).unwrap(),
{
    match String::from_utf8(bytes) {
        Ok(s) => Ok(s),
        Err(e) => Err(format!("{}", e)),
    }
}

/// Relies on `char::is_whitespace`: a pure predicate on the character.
#[verifier::external_body]
pub(crate) fn is_whitespace_char(c: char) -> (r: bool)
    ensures
        r == spec_is_whitespace(c),
{
    c.is_whitespace()
}

/// Relies on `String::push`: appends exactly one character.
#[verifier::external_body]
pub(crate) fn push_char(s: &mut String, c: char)
    ensures
        final(s)@ == old(s)@.push(c),
{
    s.push(c);
}

/// Compares two string slices character by character.
pub fn str_eq(a: &str, b: &str) -> (r: bool)
    ensures
        r == (a@ == b@),
{
    let na = a.unicode_len();
    let nb = b.unicode_len();
    if na != nb {
        proof {
            assert(a@ != b@);
        }
        return false;
    }
    let mut i: usize = 0;
    while i < na
        invariant
            na == a@.len() == b@.len(),
            i <= na,
            forall|j: int| 0 <= j < i ==> a@[j] == b@[j],
        decreases na - i,
    {
        if a.get_char(i) != b.get_char(i) {
            proof {
                assert(a@ != b@);
            }
            return false;
        }
        i = i + 1;
    }
    proof {
        assert(a@ =~= b@);
    }
    true
}

/// An ASCII capital letter lowered; every other character unchanged.
pub open spec fn spec_lower_char(c: char) -> char {
    if 65 <= c as u32 <= 90 {
        (((c as u8) + 32) as char)
    } else {
        c
    }
}

/// Lowers the ASCII capital letters of a string, leaving the rest alone.
pub fn ascii_lower(s: &str) -> (r: String)
    ensures
        r@ == s@.map_values(|c: char| spec_lower_char(c)),
{
    let n = s.unicode_len();
    let mut out = String::new();
    let mut i: usize = 0;
    while i < n
        invariant
            n == s@.len(),
            i <= n,
            out@.len() == i,
            forall|j: int| 0 <= j < i ==> out@[j] == spec_lower_char(#[trigger] s@[j]),
        decreases n - i,
    {
        let c = s.get_char(i);
        if c >= 'A' && c <= 'Z' {
            push_char(&mut out, ((c as u8) + 32) as char);
        } else {
            push_char(&mut out, c);
        }
        i = i + 1;
    }
    proof {
        assert(out@ =~= s@.map_values(|c: char| spec_lower_char(c)));
    }
    out
}

/// Whether a character is a decimal digit.
pub open spec fn spec_is_dec_digit(c: char) -> bool {
    48 <= c as u32 <= 57
}

/// The numeric value of a decimal digit character.
pub open spec fn spec_dec_digit(c: char) -> int {
    c as u32 - 48
}

/// Whether every character of a string is a decimal digit.
pub open spec fn spec_all_dec_digits(s: Seq<char>) -> bool {
    forall|i: int| 0 <= i < s.len() ==> spec_is_dec_digit(#[trigger] s[i])
}

/// The value of a string of decimal digits, most significant first.
pub open spec fn spec_dec_value(s: Seq<char>) -> int
    decreases s.len(),
{
    if s.len() == 0 {
        0
    } else {
        spec_dec_value(s.drop_last()) * 10 + spec_dec_digit(s.last())
    }
}

/// A digit string's value is never negative.
pub proof fn lemma_dec_value_nonneg(s: Seq<char>)
    requires
        spec_all_dec_digits(s),
    ensures
        spec_dec_value(s) >= 0,
    decreases s.len(),
{
    if s.len() > 0 {
        assert(spec_all_dec_digits(s.drop_last()));
        lemma_dec_value_nonneg(s.drop_last());
    }
}

/// Extending a digit string never lowers its value.
pub proof fn lemma_dec_value_monotone(s: Seq<char>, i: int)
    requires
        spec_all_dec_digits(s),
        0 <= i <= s.len(),
    ensures
        spec_dec_value(s.take(i)) <= spec_dec_value(s),
    decreases s.len() - i,
{
    if i < s.len() {
        let t = s.take(i + 1);
        assert(t.drop_last() =~= s.take(i));
        assert(t.last() == s[i]);
        assert(spec_all_dec_digits(t));
        lemma_dec_value_nonneg(s.take(i));
        assert(spec_dec_value(t) == spec_dec_value(s.take(i)) * 10 + spec_dec_digit(s[i]));
        lemma_dec_value_monotone(s, i + 1);
    } else {
        assert(s.take(i) =~= s);
    }
}

/// Parses a string of decimal digits (no sign) into a value at most `max`.
/// Succeeds exactly on non-empty all-digit strings whose value fits.
pub fn parse_digits(data: &str, max: u64) -> (r: Option<u64>)
    ensures
        r is Some <==> (data@.len() > 0 && spec_all_dec_digits(data@) && spec_dec_value(data@)
            <= max),
        r matches Some(v) ==> v == spec_dec_value(data@) && v <= max,
{
    let n = data.unicode_len();
    if n == 0 {
        return None;
    }
    let mut acc: u64 = 0;
    let mut i: usize = 0;
    proof {
        assert(data@.take(0) =~= Seq::<char>::empty());
    }
    while i < n
        invariant
            n == data@.len(),
            i <= n,
            acc <= max,
            spec_all_dec_digits(data@.take(i as int)),
            acc == spec_dec_value(data@.take(i as int)),
        decreases n - i,
    {
        let c = data.get_char(i);
        let u = c as u32;
        proof {
            assert(data@.take(i as int + 1).drop_last() =~= data@.take(i as int));
            assert(data@.take(i as int + 1).last() == data@[i as int]);
        }
        if !(48 <= u && u <= 57) {
            proof {
                assert(!spec_is_dec_digit(data@[i as int]));
            }
            return None;
        }
        let d = (u - 48) as u64;
        if acc > max / 10 || (acc == max / 10 && d > max % 10) {
            proof {
                vstd::arithmetic::div_mod::lemma_fundamental_div_mod(max as int, 10);
                assert(spec_dec_value(data@.take(i as int + 1)) > max);
                if spec_all_dec_digits(data@) {
                    lemma_dec_value_monotone(data@, i as int + 1);
                }
            }
            return None;
        }
        proof {
            vstd::arithmetic::div_mod::lemma_fundamental_div_mod(max as int, 10);
        }
        acc = acc * 10 + d;
        i = i + 1;
    }
    proof {
        assert(data@.take(n as int) =~= data@);
    }
    Some(acc)
}

/// The character of a decimal digit value.
pub open spec fn spec_dec_char(d: int) -> char {
    (((48 + d) as u8) as char)
}

/// The decimal rendering of a non-negative number, most significant digit
/// first.
pub open spec fn spec_dec_string(n: int) -> Seq<char>
    decreases n,
{
    if n < 0 {
        Seq::empty()
    } else if n < 10 {
        seq![spec_dec_char(n)]
    } else {
        spec_dec_string(n / 10) + seq![spec_dec_char(n % 10)]
    }
}

/// The decimal rendering of a signed number: a minus sign, if any, then the
/// digits of the magnitude.
pub open spec fn spec_dec_string_signed(n: int) -> Seq<char> {
    if n < 0 {
        seq!['-'] + spec_dec_string(-n)
    } else {
        spec_dec_string(n)
    }
}

/// Appends the decimal rendering of `v` to `out`.
pub fn push_decimal(out: &mut String, v: u64)
    ensures
        final(out)@ == old(out)@ + spec_dec_string(v as int),
    decreases v,
{
    if v >= 10 {
        push_decimal(out, v / 10);
        push_char(out, (48 + ((v % 10) as u8)) as char);
        proof {
            assert(final(out)@ =~= old(out)@ + spec_dec_string(v as int));
        }
    } else {
        push_char(out, (48 + (v as u8)) as char);
        proof {
            assert(final(out)@ =~= old(out)@ + spec_dec_string(v as int));
        }
    }
}

/// Renders an unsigned value in decimal.
pub fn format_u64(v: u64) -> (r: String)
    ensures
        r@ == spec_dec_string(v as int),
{
    let mut out = String::new();
    push_decimal(&mut out, v);
    proof {
        assert(out@ =~= spec_dec_string(v as int));
    }
    out
}

/// Renders a signed value in decimal.
pub fn format_i64(v: i64) -> (r: String)
    ensures
        r@ == spec_dec_string_signed(v as int),
{
    let mut out = String::new();
    if v < 0 {
        push_char(&mut out, '-');
        let magnitude: u64 = if v == i64::MIN {
            0x8000_0000_0000_0000u64
        } else {
            (-v) as u64
        };
        push_decimal(&mut out, magnitude);
        proof {
            assert(out@ =~= spec_dec_string_signed(v as int));
        }
    } else {
        push_decimal(&mut out, v as u64);
    }
    out
}


/// The value of a hexadecimal digit character, or -1 for any other character.
pub open spec fn spec_hex_digit_val(c: char) -> int {
    let u = c as u32;
    if 48 <= u <= 57 {
        u - 48
    } else if 97 <= u <= 102 {
        u - 87
    } else if 65 <= u <= 70 {
        u - 55
    } else {
        -1
    }
}

/// Whether a character is a hexadecimal digit, in either case.
pub open spec fn spec_is_hex_digit(c: char) -> bool {
    spec_hex_digit_val(c) >= 0
}

/// Whether a string is a whole number of hexadecimal digit pairs.
pub open spec fn spec_hex_pairs_ok(s: Seq<char>) -> bool {
    s.len() % 2 == 0 && forall|i: int| 0 <= i < s.len() ==> spec_is_hex_digit(#[trigger] s[i])
}

/// The bytes a string of hexadecimal digit pairs denotes.
pub open spec fn spec_hex_bytes(s: Seq<char>) -> Seq<u8> {
    Seq::new(
        (s.len() / 2) as nat,
        |i: int| (spec_hex_digit_val(s[2 * i]) * 16 + spec_hex_digit_val(s[2 * i + 1])) as u8,
    )
}

/// The value of one hexadecimal digit character, if it is one.
pub fn hex_digit_val(c: char) -> (r: Option<u8>)
    ensures
        (r is Some) == spec_is_hex_digit(c),
        r matches Some(v) ==> v == spec_hex_digit_val(c),
{
    let u = c as u32;
    if 48 <= u && u <= 57 {
        Some((u - 48) as u8)
    } else if 97 <= u && u <= 102 {
        Some((u - 87) as u8)
    } else if 65 <= u && u <= 70 {
        Some((u - 55) as u8)
    } else {
        None
    }
}

/// Parses a string of hexadecimal digit pairs into bytes.  Succeeds exactly
/// on even-length, all-hex-digit strings.
pub fn parse_hex(data: &str) -> (r: Option<Vec<u8>>)
    ensures
        (r is Some) == spec_hex_pairs_ok(data@),
        r matches Some(v) ==> v@ == spec_hex_bytes(data@),
{
    let n = data.unicode_len();
    if n % 2 != 0 {
        return None;
    }
    let mut out: Vec<u8> = Vec::new();
    let mut i: usize = 0;
    while i < n
        invariant
            n == data@.len(),
            n % 2 == 0,
            i % 2 == 0,
            i <= n,
            out@.len() == i / 2,
            forall|j: int| 0 <= j < i ==> spec_is_hex_digit(#[trigger] data@[j]),
            forall|k: int|
                0 <= k < i / 2 ==> out@[k] == (spec_hex_digit_val(data@[2 * k]) * 16
                    + spec_hex_digit_val(data@[2 * k + 1])) as u8,
        decreases n - i,
    {
        proof {
            assert(i + 2 <= n) by (nonlinear_arith)
                requires
                    i < n,
                    i % 2 == 0,
                    n % 2 == 0,
                    0 <= i,
                    0 <= n,
            ;
        }
        let hi = match hex_digit_val(data.get_char(i)) {
            Some(v) => v,
            None => {
                return None;
            },
        };
        let lo = match hex_digit_val(data.get_char(i + 1)) {
            Some(v) => v,
            None => {
                return None;
            },
        };
        out.push(hi * 16 + lo);
        i = i + 2;
    }
    proof {
        assert(out@ =~= spec_hex_bytes(data@));
    }
    Some(out)
}

/// The upper-case hexadecimal digit character of a value below sixteen.
pub open spec fn spec_hex_upper_char(v: int) -> char {
    if v < 10 {
        spec_dec_char(v)
    } else {
        (((55 + v) as u8) as char)
    }
}

/// The upper-case hexadecimal rendering of some bytes, two digits per byte,
/// high nibble first.
pub open spec fn spec_to_hex(data: Seq<u8>) -> Seq<char> {
    Seq::new(
        2 * data.len(),
        |i: int|
            if i % 2 == 0 {
                spec_hex_upper_char((data[i / 2] >> 4) as int)
            } else {
                spec_hex_upper_char((data[i / 2] & 0xf) as int)
            },
    )
}

/// The upper-case hexadecimal digit character of a nibble.
pub fn hex_upper_char(v: u8) -> (c: char)
    requires
        v < 16,
    ensures
        c == spec_hex_upper_char(v as int),
{
    if v < 10 {
        (48 + v) as char
    } else {
        (55 + v) as char
    }
}

/// The digits of an optionally `+`-prefixed number.
pub open spec fn spec_plus_body(s: Seq<char>) -> Seq<char> {
    if s.len() > 0 && s[0] == '+' {
        s.skip(1)
    } else {
        s
    }
}

/// Whether a signed rendering begins with a minus sign.
pub open spec fn spec_signed_neg(s: Seq<char>) -> bool {
    s.len() > 0 && s[0] == '-'
}

/// The digits of an optionally signed number.
pub open spec fn spec_signed_body(s: Seq<char>) -> Seq<char> {
    if s.len() > 0 && (s[0] == '-' || s[0] == '+') {
        s.skip(1)
    } else {
        s
    }
}

/// Whether a string parses as an unsigned decimal number at most `max`:
/// an optional leading plus, then at least one digit.
pub open spec fn spec_parse_u64_ok(s: Seq<char>, max: int) -> bool {
    let body = spec_plus_body(s);
    body.len() > 0 && spec_all_dec_digits(body) && spec_dec_value(body) <= max
}

/// Whether a string parses as a signed decimal number in `[-max - 1, max]`:
/// an optional sign, then at least one digit.
pub open spec fn spec_parse_i64_ok(s: Seq<char>, max: int) -> bool {
    let body = spec_signed_body(s);
    let bound = if spec_signed_neg(s) {
        max + 1
    } else {
        max
    };
    body.len() > 0 && spec_all_dec_digits(body) && spec_dec_value(body) <= bound
}

/// The value a signed decimal string denotes.
pub open spec fn spec_signed_value(s: Seq<char>) -> int {
    if spec_signed_neg(s) {
        -spec_dec_value(spec_signed_body(s))
    } else {
        spec_dec_value(spec_signed_body(s))
    }
}

/// Parses an optionally `+`-prefixed decimal number of value at most `max`.
pub fn parse_u64_str(data: &str, max: u64) -> (r: Option<u64>)
    ensures
        (r is Some) == spec_parse_u64_ok(data@, max as int),
        r matches Some(v) ==> v == spec_dec_value(spec_plus_body(data@)) && v <= max,
{
    let n = data.unicode_len();
    if n > 0 && data.get_char(0) == '+' {
        let rest = data.substring_char(1, n);
        proof {
            assert(rest@ =~= spec_plus_body(data@));
        }
        parse_digits(rest, max)
    } else {
        parse_digits(data, max)
    }
}

/// Parses an optionally signed decimal number in `[-max - 1, max]`.
pub fn parse_i64_str(data: &str, max: i64) -> (r: Option<i64>)
    requires
        0 < max,
    ensures
        (r is Some) == spec_parse_i64_ok(data@, max as int),
        r matches Some(v) ==> v as int == spec_signed_value(data@) && -max - 1 <= v <= max,
{
    let n = data.unicode_len();
    let signed = n > 0 && (data.get_char(0) == '-' || data.get_char(0) == '+');
    let neg = n > 0 && data.get_char(0) == '-';
    let start: usize = if signed {
        1
    } else {
        0
    };
    let rest = data.substring_char(start, n);
    proof {
        assert(rest@ =~= spec_signed_body(data@));
    }
    let bound: u64 = if neg {
        (max as u64) + 1
    } else {
        max as u64
    };
    match parse_digits(rest, bound) {
        Some(m) => {
            let v: i64 = if neg {
                if m == (max as u64) + 1 {
                    (-max) - 1
                } else {
                    -(m as i64)
                }
            } else {
                m as i64
            };
            Some(v)
        },
        None => None,
    }
}


/// Whether `s` ends with `suffix`, character for character.
pub fn str_ends_with(s: &str, suffix: &str) -> (r: bool)
    ensures
        r == (s@.len() >= suffix@.len() && s@.skip(s@.len() - suffix@.len()) == suffix@),
{
    let n = s.unicode_len();
    let m = suffix.unicode_len();
    if n < m {
        return false;
    }
    let mut i: usize = 0;
    while i < m
        invariant
            n == s@.len(),
            m == suffix@.len(),
            m <= n,
            i <= m,
            forall|j: int| 0 <= j < i ==> s@[n - m + j] == suffix@[j],
        decreases m - i,
    {
        if s.get_char(n - m + i) != suffix.get_char(i) {
            proof {
                assert(s@.skip(s@.len() - suffix@.len())[i as int] == s@[n - m + i]);
            }
            return false;
        }
        i = i + 1;
    }
    proof {
        assert(s@.skip(s@.len() - suffix@.len()) =~= suffix@);
    }
    true
}

} // verus!
