use vstd::prelude::*;
use vstd::slice::slice_subrange;
use vstd::string::*;
use crate::codec::{
    i16_bits, i16_of_bits, i32_bits, i32_of_bits, i64_bits, i64_of_bits, prefix_before_nul,
    spec_first_nul, spec_i16_bits, spec_i16_of_bits, spec_i32_bits, spec_i32_of_bits,
    spec_i64_bits, spec_i64_of_bits, spec_u16_from_be, spec_u16_from_le, spec_u16_to_be,
    spec_u16_to_le, spec_u32_from_be, spec_u32_from_le, spec_u32_to_be, spec_u32_to_le,
    spec_u64_from_be, spec_u64_from_le, spec_u64_to_be, spec_u64_to_le, u16_from_be, u16_from_le,
    u16_to_be, u16_to_le, u32_from_be, u32_from_le, u32_to_be, u32_to_le, u64_from_be,
    u64_from_le, u64_to_be, u64_to_le,
};
use crate::errors::{WxError, WxResult};
use crate::text::{
    ascii_lower, base64_nopad_decode, base64_nopad_encode, format_i64, format_u64, hex_upper_char,
    parse_hex, parse_i64_str, parse_u64_str, push_char, spec_base64_nopad_decode,
    spec_base64_nopad_encode, spec_dec_string, spec_dec_string_signed, spec_dec_value,
    spec_hex_bytes, spec_hex_pairs_ok, spec_lower_char, spec_parse_i64_ok, spec_parse_u64_ok,
    spec_plus_body, spec_signed_value, spec_to_hex, spec_utf8_decode, str_eq, utf8_to_string,
};

verus! {

/// Renders bytes as upper-case hexadecimal, two digits per byte.
pub fn to_hex(data: &[u8]) -> (r: String)
    ensures
        r@ == spec_to_hex(data@),
{
    let n = data.len();
    let mut out = String::new();
    let mut i: usize = 0;
    while i < n
        invariant
            n == data@.len(),
            i <= n,
            out@.len() == 2 * i,
            forall|j: int| 0 <= j < 2 * i ==> out@[j] == spec_to_hex(data@)[j],
        decreases n - i,
    {
        let b = data[i];
        proof {
            assert(b >> 4 < 16 && b & 0xf < 16) by (bit_vector);
        }
        push_char(&mut out, hex_upper_char(b >> 4));
        push_char(&mut out, hex_upper_char(b & 0xf));
        i = i + 1;
    }
    proof {
        assert(out@ =~= spec_to_hex(data@));
    }
    out
}

/// What decoding a text under a named encoding yields, and whether the text
/// is accepted at all.  The encoding name is matched case-insensitively:
/// hexadecimal digit pairs, base64 without padding, the UTF-8 bytes of the
/// text itself, or a decimal number rendered in a named width and byte
/// order; any other name decodes nothing.
pub open spec fn spec_decoded_bytes(data: Seq<char>, encode: Seq<char>) -> Option<Seq<u8>> {
    let enc = encode.map_values(|c: char| spec_lower_char(c));
    if enc == "hex"@ {
        if spec_hex_pairs_ok(data) {
            Some(spec_hex_bytes(data))
        } else {
            None
        }
    } else if enc == "base64"@ {
        spec_base64_nopad_decode(data)
    } else if enc == "string"@ {
        Some(vstd::utf8::encode_utf8(data))
    } else if enc == "u64be"@ {
        if spec_parse_u64_ok(data, u64::MAX as int) {
            Some(spec_u64_to_be(spec_dec_value(spec_plus_body(data)) as u64))
        } else {
            None
        }
    } else if enc == "u64le"@ {
        if spec_parse_u64_ok(data, u64::MAX as int) {
            Some(spec_u64_to_le(spec_dec_value(spec_plus_body(data)) as u64))
        } else {
            None
        }
    } else if enc == "u32be"@ {
        if spec_parse_u64_ok(data, u32::MAX as int) {
            Some(spec_u32_to_be(spec_dec_value(spec_plus_body(data)) as u32))
        } else {
            None
        }
    } else if enc == "u32le"@ {
        if spec_parse_u64_ok(data, u32::MAX as int) {
            Some(spec_u32_to_le(spec_dec_value(spec_plus_body(data)) as u32))
        } else {
            None
        }
    } else if enc == "u16be"@ {
        if spec_parse_u64_ok(data, u16::MAX as int) {
            Some(spec_u16_to_be(spec_dec_value(spec_plus_body(data)) as u16))
        } else {
            None
        }
    } else if enc == "u16le"@ {
        if spec_parse_u64_ok(data, u16::MAX as int) {
            Some(spec_u16_to_le(spec_dec_value(spec_plus_body(data)) as u16))
        } else {
            None
        }
    } else if enc == "i64be"@ {
        if spec_parse_i64_ok(data, i64::MAX as int) {
            Some(spec_u64_to_be(spec_i64_bits(spec_signed_value(data))))
        } else {
            None
        }
    } else if enc == "i64le"@ {
        if spec_parse_i64_ok(data, i64::MAX as int) {
            Some(spec_u64_to_le(spec_i64_bits(spec_signed_value(data))))
        } else {
            None
        }
    } else if enc == "i32be"@ {
        if spec_parse_i64_ok(data, i32::MAX as int) {
            Some(spec_u32_to_be(spec_i32_bits(spec_signed_value(data))))
        } else {
            None
        }
    } else if enc == "i32le"@ {
        if spec_parse_i64_ok(data, i32::MAX as int) {
            Some(spec_u32_to_le(spec_i32_bits(spec_signed_value(data))))
        } else {
            None
        }
    } else if enc == "i16be"@ {
        if spec_parse_i64_ok(data, i16::MAX as int) {
            Some(spec_u16_to_be(spec_i16_bits(spec_signed_value(data))))
        } else {
            None
        }
    } else if enc == "i16le"@ {
        if spec_parse_i64_ok(data, i16::MAX as int) {
            Some(spec_u16_to_le(spec_i16_bits(spec_signed_value(data))))
        } else {
            None
        }
    } else {
        None
    }
}

/// Turns a textual key or value into bytes, according to `encode`
/// (case-insensitive): hexadecimal digit pairs, base64 without padding, the
/// UTF-8 bytes of the text itself, or a decimal number rendered in a named
/// width and byte order.  Any other encoding name is an error.
pub fn string_to_u8_vec(data: &String, encode: &String) -> (r: WxResult<Vec<u8>>)
    ensures
        r is Ok <==> spec_decoded_bytes(data@, encode@) is Some,
        r matches Ok(v) ==> v@ == spec_decoded_bytes(data@, encode@).unwrap(),
{
    let lower = ascii_lower(encode.as_str());
    proof {
        assert(lower@ =~= encode@.map_values(|c: char| spec_lower_char(c)));
    }
    let enc = lower.as_str();
    if str_eq(enc, "hex") {
        match parse_hex(data.as_str()) {
            Some(v) => Ok(v),
            None => Err(WxError::decode(
                String::from_str("hex"),
                String::from_str("expected an even number of hexadecimal digits"),
            )),
        }
    } else if str_eq(enc, "base64") {
        match base64_nopad_decode(data.as_str()) {
            Ok(v) => Ok(v),
            Err(m) => Err(WxError::decode(String::from_str("base64"), m)),
        }
    } else if str_eq(enc, "string") {
        Ok(data.as_str().as_bytes_vec())
    } else if str_eq(enc, "u64be") {
        match parse_u64_str(data.as_str(), u64::MAX) {
            Some(v) => Ok(u64_to_be(v)),
            None => Err(decimal_error()),
        }
    } else if str_eq(enc, "u64le") {
        match parse_u64_str(data.as_str(), u64::MAX) {
            Some(v) => Ok(u64_to_le(v)),
            None => Err(decimal_error()),
        }
    } else if str_eq(enc, "u32be") {
        match parse_u64_str(data.as_str(), 0xffff_ffff) {
            Some(v) => Ok(u32_to_be(v as u32)),
            None => Err(decimal_error()),
        }
    } else if str_eq(enc, "u32le") {
        match parse_u64_str(data.as_str(), 0xffff_ffff) {
            Some(v) => Ok(u32_to_le(v as u32)),
            None => Err(decimal_error()),
        }
    } else if str_eq(enc, "u16be") {
        match parse_u64_str(data.as_str(), 0xffff) {
            Some(v) => Ok(u16_to_be(v as u16)),
            None => Err(decimal_error()),
        }
    } else if str_eq(enc, "u16le") {
        match parse_u64_str(data.as_str(), 0xffff) {
            Some(v) => Ok(u16_to_le(v as u16)),
            None => Err(decimal_error()),
        }
    } else if str_eq(enc, "i64be") {
        match parse_i64_str(data.as_str(), i64::MAX) {
            Some(v) => Ok(u64_to_be(i64_bits(v))),
            None => Err(decimal_error()),
        }
    } else if str_eq(enc, "i64le") {
        match parse_i64_str(data.as_str(), i64::MAX) {
            Some(v) => Ok(u64_to_le(i64_bits(v))),
            None => Err(decimal_error()),
        }
    } else if str_eq(enc, "i32be") {
        match parse_i64_str(data.as_str(), 0x7fff_ffff) {
            Some(v) => Ok(u32_to_be(i32_bits(v))),
            None => Err(decimal_error()),
        }
    } else if str_eq(enc, "i32le") {
        match parse_i64_str(data.as_str(), 0x7fff_ffff) {
            Some(v) => Ok(u32_to_le(i32_bits(v))),
            None => Err(decimal_error()),
        }
    } else if str_eq(enc, "i16be") {
        match parse_i64_str(data.as_str(), 0x7fff) {
            Some(v) => Ok(u16_to_be(i16_bits(v))),
            None => Err(decimal_error()),
        }
    } else if str_eq(enc, "i16le") {
        match parse_i64_str(data.as_str(), 0x7fff) {
            Some(v) => Ok(u16_to_le(i16_bits(v))),
            None => Err(decimal_error()),
        }
    } else {
        Err(WxError::custom(String::from_str("unknown encoding name")))
    }
}

/// Renders bytes as text, according to `encode` (case-insensitive):
/// hexadecimal, base64 without padding, the UTF-8 text before the first NUL,
/// or the decimal value of the leading bytes in a named width and byte order.
/// Any other encoding name is an error.
pub fn u8_to_string(data: &[u8], encode: &String) -> (r: WxResult<String>)
    ensures
        ({
            let enc = encode@.map_values(|c: char| spec_lower_char(c));
            &&& enc == "hex"@ ==> (r matches Ok(s) && s@ == spec_to_hex(data@))
            &&& enc == "base64"@ ==> (r matches Ok(s) && s@ == spec_base64_nopad_encode(data@))
            &&& enc == "string"@ ==> ((r is Ok <==> spec_utf8_decode(
                data@.take(spec_first_nul(data@)),
            ) is Some) && (r matches Ok(s) ==> s@ == spec_utf8_decode(
                data@.take(spec_first_nul(data@)),
            ).unwrap()))
            &&& enc == "u64be"@ ==> ((r is Ok <==> data@.len() >= 8) && (r matches Ok(s) ==> s@
                == spec_dec_string(spec_u64_from_be(data@.subrange(0, 8)) as int)))
            &&& enc == "u64le"@ ==> ((r is Ok <==> data@.len() >= 8) && (r matches Ok(s) ==> s@
                == spec_dec_string(spec_u64_from_le(data@.subrange(0, 8)) as int)))
            &&& enc == "u32be"@ ==> ((r is Ok <==> data@.len() >= 4) && (r matches Ok(s) ==> s@
                == spec_dec_string(spec_u32_from_be(data@.subrange(0, 4)) as int)))
            &&& enc == "u32le"@ ==> ((r is Ok <==> data@.len() >= 4) && (r matches Ok(s) ==> s@
                == spec_dec_string(spec_u32_from_le(data@.subrange(0, 4)) as int)))
            &&& enc == "u16be"@ ==> ((r is Ok <==> data@.len() >= 2) && (r matches Ok(s) ==> s@
                == spec_dec_string(spec_u16_from_be(data@.subrange(0, 2)) as int)))
            &&& enc == "u16le"@ ==> ((r is Ok <==> data@.len() >= 2) && (r matches Ok(s) ==> s@
                == spec_dec_string(spec_u16_from_le(data@.subrange(0, 2)) as int)))
            &&& enc == "i64be"@ ==> ((r is Ok <==> data@.len() >= 8) && (r matches Ok(s) ==> s@
                == spec_dec_string_signed(spec_i64_of_bits(spec_u64_from_be(data@.subrange(0, 8))))))
            &&& enc == "i64le"@ ==> ((r is Ok <==> data@.len() >= 8) && (r matches Ok(s) ==> s@
                == spec_dec_string_signed(spec_i64_of_bits(spec_u64_from_le(data@.subrange(0, 8))))))
            &&& enc == "i32be"@ ==> ((r is Ok <==> data@.len() >= 4) && (r matches Ok(s) ==> s@
                == spec_dec_string_signed(spec_i32_of_bits(spec_u32_from_be(data@.subrange(0, 4))))))
            &&& enc == "i32le"@ ==> ((r is Ok <==> data@.len() >= 4) && (r matches Ok(s) ==> s@
                == spec_dec_string_signed(spec_i32_of_bits(spec_u32_from_le(data@.subrange(0, 4))))))
            &&& enc == "i16be"@ ==> ((r is Ok <==> data@.len() >= 2) && (r matches Ok(s) ==> s@
                == spec_dec_string_signed(spec_i16_of_bits(spec_u16_from_be(data@.subrange(0, 2))))))
            &&& enc == "i16le"@ ==> ((r is Ok <==> data@.len() >= 2) && (r matches Ok(s) ==> s@
                == spec_dec_string_signed(spec_i16_of_bits(spec_u16_from_le(data@.subrange(0, 2))))))
            &&& (enc != "hex"@ && enc != "base64"@ && enc != "string"@ && enc != "u64be"@ && enc
                != "u64le"@ && enc != "u32be"@ && enc != "u32le"@ && enc != "u16be"@ && enc
                != "u16le"@ && enc != "i64be"@ && enc != "i64le"@ && enc != "i32be"@ && enc
                != "i32le"@ && enc != "i16be"@ && enc != "i16le"@) ==> r is Err
        }),
{
    proof {
        reveal_strlit("hex");
        reveal_strlit("base64");
        reveal_strlit("string");
        reveal_strlit("u64be");
        reveal_strlit("u64le");
        reveal_strlit("u32be");
        reveal_strlit("u32le");
        reveal_strlit("u16be");
        reveal_strlit("u16le");
        reveal_strlit("i64be");
        reveal_strlit("i64le");
        reveal_strlit("i32be");
        reveal_strlit("i32le");
        reveal_strlit("i16be");
        reveal_strlit("i16le");
    }
    let lower = ascii_lower(encode.as_str());
    proof {
        assert(lower@ =~= encode@.map_values(|c: char| spec_lower_char(c)));
    }
    proof {
        assert("hex"@.len() == 3);
        assert("base64"@.len() == 6 && "base64"@[0] == 'b');
        assert("string"@.len() == 6 && "string"@[0] == 's');
        assert("u64be"@.len() == 5 && "u64be"@[0] == 'u' && "u64be"@[1] == '6' && "u64be"@[3]
            == 'b');
        assert("u64le"@.len() == 5 && "u64le"@[0] == 'u' && "u64le"@[1] == '6' && "u64le"@[3]
            == 'l');
        assert("u32be"@.len() == 5 && "u32be"@[0] == 'u' && "u32be"@[1] == '3' && "u32be"@[3]
            == 'b');
        assert("u32le"@.len() == 5 && "u32le"@[0] == 'u' && "u32le"@[1] == '3' && "u32le"@[3]
            == 'l');
        assert("u16be"@.len() == 5 && "u16be"@[0] == 'u' && "u16be"@[1] == '1' && "u16be"@[3]
            == 'b');
        assert("u16le"@.len() == 5 && "u16le"@[0] == 'u' && "u16le"@[1] == '1' && "u16le"@[3]
            == 'l');
        assert("i64be"@.len() == 5 && "i64be"@[0] == 'i' && "i64be"@[1] == '6' && "i64be"@[3]
            == 'b');
        assert("i64le"@.len() == 5 && "i64le"@[0] == 'i' && "i64le"@[1] == '6' && "i64le"@[3]
            == 'l');
        assert("i32be"@.len() == 5 && "i32be"@[0] == 'i' && "i32be"@[1] == '3' && "i32be"@[3]
            == 'b');
        assert("i32le"@.len() == 5 && "i32le"@[0] == 'i' && "i32le"@[1] == '3' && "i32le"@[3]
            == 'l');
        assert("i16be"@.len() == 5 && "i16be"@[0] == 'i' && "i16be"@[1] == '1' && "i16be"@[3]
            == 'b');
        assert("i16le"@.len() == 5 && "i16le"@[0] == 'i' && "i16le"@[1] == '1' && "i16le"@[3]
            == 'l');
    }
    let enc = lower.as_str();
    if str_eq(enc, "hex") {
        Ok(to_hex(data))
    } else if str_eq(enc, "base64") {
        Ok(base64_nopad_encode(data))
    } else if str_eq(enc, "string") {
        let prefix = prefix_before_nul(data);
        match utf8_to_string(prefix) {
            Ok(s) => Ok(s),
            Err(m) => Err(WxError::decode(String::from_str("utf8"), m)),
        }
    } else if str_eq(enc, "u64be") {
        if data.len() < 8 {
            Err(width_error())
        } else {
            Ok(format_u64(u64_from_be(slice_subrange(data, 0, 8))))
        }
    } else if str_eq(enc, "u64le") {
        if data.len() < 8 {
            Err(width_error())
        } else {
            Ok(format_u64(u64_from_le(slice_subrange(data, 0, 8))))
        }
    } else if str_eq(enc, "u32be") {
        if data.len() < 4 {
            Err(width_error())
        } else {
            Ok(format_u64(u32_from_be(slice_subrange(data, 0, 4)) as u64))
        }
    } else if str_eq(enc, "u32le") {
        if data.len() < 4 {
            Err(width_error())
        } else {
            Ok(format_u64(u32_from_le(slice_subrange(data, 0, 4)) as u64))
        }
    } else if str_eq(enc, "u16be") {
        if data.len() < 2 {
            Err(width_error())
        } else {
            Ok(format_u64(u16_from_be(slice_subrange(data, 0, 2)) as u64))
        }
    } else if str_eq(enc, "u16le") {
        if data.len() < 2 {
            Err(width_error())
        } else {
            Ok(format_u64(u16_from_le(slice_subrange(data, 0, 2)) as u64))
        }
    } else if str_eq(enc, "i64be") {
        if data.len() < 8 {
            Err(width_error())
        } else {
            Ok(format_i64(i64_of_bits(u64_from_be(slice_subrange(data, 0, 8)))))
        }
    } else if str_eq(enc, "i64le") {
        if data.len() < 8 {
            Err(width_error())
        } else {
            Ok(format_i64(i64_of_bits(u64_from_le(slice_subrange(data, 0, 8)))))
        }
    } else if str_eq(enc, "i32be") {
        if data.len() < 4 {
            Err(width_error())
        } else {
            Ok(format_i64(i32_of_bits(u32_from_be(slice_subrange(data, 0, 4)))))
        }
    } else if str_eq(enc, "i32le") {
        if data.len() < 4 {
            Err(width_error())
        } else {
            Ok(format_i64(i32_of_bits(u32_from_le(slice_subrange(data, 0, 4)))))
        }
    } else if str_eq(enc, "i16be") {
        if data.len() < 2 {
            Err(width_error())
        } else {
            Ok(format_i64(i16_of_bits(u16_from_be(slice_subrange(data, 0, 2)))))
        }
    } else if str_eq(enc, "i16le") {
        if data.len() < 2 {
            Err(width_error())
        } else {
            Ok(format_i64(i16_of_bits(u16_from_le(slice_subrange(data, 0, 2)))))
        }
    } else {
        Err(WxError::custom(String::from_str("unknown encoding name")))
    }
}

/// The error for a number that did not parse or does not fit its width.
fn decimal_error() -> (e: WxError)
    ensures
        e.kind is DecodeError,
{
    WxError::decode(
        String::from_str("decimal"),
        String::from_str("expected a decimal number that fits the width"),
    )
}

/// The error for an input shorter than the requested width.
fn width_error() -> (e: WxError)
    ensures
        e.kind is DecodeError,
{
    WxError::decode(String::from_str("width"), String::from_str("input shorter than the width"))
}

} // verus!
