use vstd::prelude::*;

verus! {

/// The 32-bit value stored little-endian in four bytes.
pub open spec fn spec_u32_from_le(s: Seq<u8>) -> u32
    recommends
        s.len() == 4,
{
    (s[0] as u32) | (s[1] as u32) << 8 | (s[2] as u32) << 16 | (s[3] as u32) << 24
}

/// The 32-bit value stored big-endian in four bytes.
pub open spec fn spec_u32_from_be(s: Seq<u8>) -> u32
    recommends
        s.len() == 4,
{
    (s[3] as u32) | (s[2] as u32) << 8 | (s[1] as u32) << 16 | (s[0] as u32) << 24
}

/// The four little-endian bytes of a 32-bit value.
pub open spec fn spec_u32_to_le(x: u32) -> Seq<u8> {
    seq![
        (x & 0xff) as u8,
        ((x >> 8) & 0xff) as u8,
        ((x >> 16) & 0xff) as u8,
        ((x >> 24) & 0xff) as u8,
    ]
}

/// The four big-endian bytes of a 32-bit value.
pub open spec fn spec_u32_to_be(x: u32) -> Seq<u8> {
    seq![
        ((x >> 24) & 0xff) as u8,
        ((x >> 16) & 0xff) as u8,
        ((x >> 8) & 0xff) as u8,
        (x & 0xff) as u8,
    ]
}

/// Reads a 32-bit little-endian value from a four-byte slice.
pub fn u32_from_le(s: &[u8]) -> (x: u32)
    requires
        s@.len() == 4,
    ensures
        x == spec_u32_from_le(s@),
{
    let b0 = s[0];
    let b1 = s[1];
    let b2 = s[2];
    let b3 = s[3];
    (b0 as u32) | (b1 as u32) << 8 | (b2 as u32) << 16 | (b3 as u32) << 24
}

/// Reads a 32-bit big-endian value from a four-byte slice.
pub fn u32_from_be(s: &[u8]) -> (x: u32)
    requires
        s@.len() == 4,
    ensures
        x == spec_u32_from_be(s@),
{
    let b0 = s[0];
    let b1 = s[1];
    let b2 = s[2];
    let b3 = s[3];
    (b3 as u32) | (b2 as u32) << 8 | (b1 as u32) << 16 | (b0 as u32) << 24
}

/// Writes a 32-bit value as four little-endian bytes.
pub fn u32_to_le(x: u32) -> (s: Vec<u8>)
    ensures
        s@ == spec_u32_to_le(x),
{
    proof {
        lemma_u32_byte_fields(x);
    }
    let mut s: Vec<u8> = Vec::new();
    s.push((x & 0xff) as u8);
    s.push(((x >> 8) & 0xff) as u8);
    s.push(((x >> 16) & 0xff) as u8);
    s.push(((x >> 24) & 0xff) as u8);
    proof {
        assert(s@ =~= spec_u32_to_le(x));
    }
    s
}

/// Writes a 32-bit value as four big-endian bytes.
pub fn u32_to_be(x: u32) -> (s: Vec<u8>)
    ensures
        s@ == spec_u32_to_be(x),
{
    proof {
        lemma_u32_byte_fields(x);
    }
    let mut s: Vec<u8> = Vec::new();
    s.push(((x >> 24) & 0xff) as u8);
    s.push(((x >> 16) & 0xff) as u8);
    s.push(((x >> 8) & 0xff) as u8);
    s.push((x & 0xff) as u8);
    proof {
        assert(s@ =~= spec_u32_to_be(x));
    }
    s
}

/// Compares two byte slices for equality.
pub fn bytes_eq(a: &[u8], b: &[u8]) -> (r: bool)
    ensures
        r == (a@ == b@),
{
    let n = a.len();
    if n != b.len() {
        proof {
            assert(a@ != b@);
        }
        return false;
    }
    let mut i: usize = 0;
    while i < n
        invariant
            n == a@.len() == b@.len(),
            i <= n,
            forall|j: int| 0 <= j < i ==> a@[j] == b@[j],
        decreases n - i,
    {
        if a[i] != b[i] {
            proof {
                assert(a@ != b@);
            }
            return false;
        }
        i = i + 1;
    }
    proof {
        assert(a@ =~= b@);
    }
    true
}

/// Every byte field of a 32-bit value fits in a byte.
proof fn lemma_u32_byte_fields(x: u32)
    ensures
        x & 0xff < 256,
        (x >> 8) & 0xff < 256,
        (x >> 16) & 0xff < 256,
        (x >> 24) & 0xff < 256,
{
    assert(x & 0xff < 256 && (x >> 8) & 0xff < 256 && (x >> 16) & 0xff < 256 && (x >> 24) & 0xff
        < 256) by (bit_vector);
}


/// The 16-bit value stored little-endian in two bytes.
pub open spec fn spec_u16_from_le(s: Seq<u8>) -> u16
    recommends
        s.len() == 2,
{
    (s[0] as u16) | (s[1] as u16) << 8
}

/// The 16-bit value stored big-endian in two bytes.
pub open spec fn spec_u16_from_be(s: Seq<u8>) -> u16
    recommends
        s.len() == 2,
{
    (s[1] as u16) | (s[0] as u16) << 8
}

/// The two little-endian bytes of a 16-bit value.
pub open spec fn spec_u16_to_le(x: u16) -> Seq<u8> {
    seq![(x & 0xff) as u8, ((x >> 8) & 0xff) as u8]
}

/// The two big-endian bytes of a 16-bit value.
pub open spec fn spec_u16_to_be(x: u16) -> Seq<u8> {
    seq![((x >> 8) & 0xff) as u8, (x & 0xff) as u8]
}

/// The 64-bit value stored little-endian in eight bytes.
pub open spec fn spec_u64_from_le(s: Seq<u8>) -> u64
    recommends
        s.len() == 8,
{
    (s[0] as u64) | (s[1] as u64) << 8 | (s[2] as u64) << 16 | (s[3] as u64) << 24 | (
    s[4] as u64) << 32 | (s[5] as u64) << 40 | (s[6] as u64) << 48 | (s[7] as u64) << 56
}

/// The 64-bit value stored big-endian in eight bytes.
pub open spec fn spec_u64_from_be(s: Seq<u8>) -> u64
    recommends
        s.len() == 8,
{
    (s[7] as u64) | (s[6] as u64) << 8 | (s[5] as u64) << 16 | (s[4] as u64) << 24 | (
    s[3] as u64) << 32 | (s[2] as u64) << 40 | (s[1] as u64) << 48 | (s[0] as u64) << 56
}

/// The eight little-endian bytes of a 64-bit value.
pub open spec fn spec_u64_to_le(x: u64) -> Seq<u8> {
    seq![
        (x & 0xff) as u8,
        ((x >> 8) & 0xff) as u8,
        ((x >> 16) & 0xff) as u8,
        ((x >> 24) & 0xff) as u8,
        ((x >> 32) & 0xff) as u8,
        ((x >> 40) & 0xff) as u8,
        ((x >> 48) & 0xff) as u8,
        ((x >> 56) & 0xff) as u8,
    ]
}

/// The eight big-endian bytes of a 64-bit value.
pub open spec fn spec_u64_to_be(x: u64) -> Seq<u8> {
    seq![
        ((x >> 56) & 0xff) as u8,
        ((x >> 48) & 0xff) as u8,
        ((x >> 40) & 0xff) as u8,
        ((x >> 32) & 0xff) as u8,
        ((x >> 24) & 0xff) as u8,
        ((x >> 16) & 0xff) as u8,
        ((x >> 8) & 0xff) as u8,
        (x & 0xff) as u8,
    ]
}

/// Reads a 16-bit little-endian value from a two-byte slice.
pub fn u16_from_le(s: &[u8]) -> (x: u16)
    requires
        s@.len() == 2,
    ensures
        x == spec_u16_from_le(s@),
{
    (s[0] as u16) | (s[1] as u16) << 8
}

/// Reads a 16-bit big-endian value from a two-byte slice.
pub fn u16_from_be(s: &[u8]) -> (x: u16)
    requires
        s@.len() == 2,
    ensures
        x == spec_u16_from_be(s@),
{
    (s[1] as u16) | (s[0] as u16) << 8
}

/// Writes a 16-bit value as two little-endian bytes.
pub fn u16_to_le(x: u16) -> (s: Vec<u8>)
    ensures
        s@ == spec_u16_to_le(x),
{
    proof {
        assert(x & 0xff < 256 && (x >> 8) & 0xff < 256) by (bit_vector);
    }
    let mut s: Vec<u8> = Vec::new();
    s.push((x & 0xff) as u8);
    s.push(((x >> 8) & 0xff) as u8);
    proof {
        assert(s@ =~= spec_u16_to_le(x));
    }
    s
}

/// Writes a 16-bit value as two big-endian bytes.
pub fn u16_to_be(x: u16) -> (s: Vec<u8>)
    ensures
        s@ == spec_u16_to_be(x),
{
    proof {
        assert(x & 0xff < 256 && (x >> 8) & 0xff < 256) by (bit_vector);
    }
    let mut s: Vec<u8> = Vec::new();
    s.push(((x >> 8) & 0xff) as u8);
    s.push((x & 0xff) as u8);
    proof {
        assert(s@ =~= spec_u16_to_be(x));
    }
    s
}

/// Reads a 64-bit little-endian value from an eight-byte slice.
pub fn u64_from_le(s: &[u8]) -> (x: u64)
    requires
        s@.len() == 8,
    ensures
        x == spec_u64_from_le(s@),
{
    (s[0] as u64) | (s[1] as u64) << 8 | (s[2] as u64) << 16 | (s[3] as u64) << 24 | (
    s[4] as u64) << 32 | (s[5] as u64) << 40 | (s[6] as u64) << 48 | (s[7] as u64) << 56
}

/// Reads a 64-bit big-endian value from an eight-byte slice.
pub fn u64_from_be(s: &[u8]) -> (x: u64)
    requires
        s@.len() == 8,
    ensures
        x == spec_u64_from_be(s@),
{
    (s[7] as u64) | (s[6] as u64) << 8 | (s[5] as u64) << 16 | (s[4] as u64) << 24 | (
    s[3] as u64) << 32 | (s[2] as u64) << 40 | (s[1] as u64) << 48 | (s[0] as u64) << 56
}

/// Writes a 64-bit value as eight little-endian bytes.
pub fn u64_to_le(x: u64) -> (s: Vec<u8>)
    ensures
        s@ == spec_u64_to_le(x),
{
    proof {
        lemma_u64_byte_fields(x);
    }
    let mut s: Vec<u8> = Vec::new();
    s.push((x & 0xff) as u8);
    s.push(((x >> 8) & 0xff) as u8);
    s.push(((x >> 16) & 0xff) as u8);
    s.push(((x >> 24) & 0xff) as u8);
    s.push(((x >> 32) & 0xff) as u8);
    s.push(((x >> 40) & 0xff) as u8);
    s.push(((x >> 48) & 0xff) as u8);
    s.push(((x >> 56) & 0xff) as u8);
    proof {
        assert(s@ =~= spec_u64_to_le(x));
    }
    s
}

/// Writes a 64-bit value as eight big-endian bytes.
pub fn u64_to_be(x: u64) -> (s: Vec<u8>)
    ensures
        s@ == spec_u64_to_be(x),
{
    proof {
        lemma_u64_byte_fields(x);
    }
    let mut s: Vec<u8> = Vec::new();
    s.push(((x >> 56) & 0xff) as u8);
    s.push(((x >> 48) & 0xff) as u8);
    s.push(((x >> 40) & 0xff) as u8);
    s.push(((x >> 32) & 0xff) as u8);
    s.push(((x >> 24) & 0xff) as u8);
    s.push(((x >> 16) & 0xff) as u8);
    s.push(((x >> 8) & 0xff) as u8);
    s.push((x & 0xff) as u8);
    proof {
        assert(s@ =~= spec_u64_to_be(x));
    }
    s
}

/// Every byte field of a 64-bit value fits in a byte.
proof fn lemma_u64_byte_fields(x: u64)
    ensures
        x & 0xff < 256,
        (x >> 8) & 0xff < 256,
        (x >> 16) & 0xff < 256,
        (x >> 24) & 0xff < 256,
        (x >> 32) & 0xff < 256,
        (x >> 40) & 0xff < 256,
        (x >> 48) & 0xff < 256,
        (x >> 56) & 0xff < 256,
{
    assert(x & 0xff < 256 && (x >> 8) & 0xff < 256 && (x >> 16) & 0xff < 256 && (x >> 24) & 0xff
        < 256 && (x >> 32) & 0xff < 256 && (x >> 40) & 0xff < 256 && (x >> 48) & 0xff < 256 && (x
        >> 56) & 0xff < 256) by (bit_vector);
}

/// The index of the first NUL byte, or the length if there is none.
pub open spec fn spec_first_nul(b: Seq<u8>) -> int
    decreases b.len(),
{
    if b.len() == 0 {
        0
    } else if b[0] == 0 {
        0
    } else {
        1 + spec_first_nul(b.drop_first())
    }
}

/// Copies the bytes before the first NUL (all of them if there is none).
pub fn prefix_before_nul(data: &[u8]) -> (r: Vec<u8>)
    ensures
        r@ == data@.take(spec_first_nul(data@)),
{
    let n = data.len();
    let mut i: usize = 0;
    proof {
        assert(data@.skip(0) =~= data@);
    }
    while i < n
        invariant_except_break
            n == data@.len(),
            i <= n,
            spec_first_nul(data@) == i + spec_first_nul(data@.skip(i as int)),
            forall|j: int| 0 <= j < i ==> data@[j] != 0,
        ensures
            i <= n == data@.len(),
            spec_first_nul(data@) == i,
        decreases n - i,
    {
        if data[i] == 0 {
            proof {
                assert(data@.skip(i as int)[0] == data@[i as int]);
                assert(spec_first_nul(data@.skip(i as int)) == 0);
            }
            break;
        }
        proof {
            assert(data@.skip(i as int)[0] == data@[i as int]);
            assert(data@.skip(i as int).drop_first() =~= data@.skip(i as int + 1));
        }
        i = i + 1;
    }
    let out = vstd::slice::slice_to_vec(vstd::slice::slice_subrange(data, 0, i));
    proof {
        assert(out@ =~= data@.take(spec_first_nul(data@)));
    }
    out
}

/// The 16 low bits of a signed value, as two's complement.
pub open spec fn spec_i16_bits(v: int) -> u16 {
    if v >= 0 {
        v as u16
    } else {
        (v + 0x1_0000) as u16
    }
}

/// The 32 low bits of a signed value, as two's complement.
pub open spec fn spec_i32_bits(v: int) -> u32 {
    if v >= 0 {
        v as u32
    } else {
        (v + 0x1_0000_0000) as u32
    }
}

/// The 64 bits of a signed value, as two's complement.
pub open spec fn spec_i64_bits(v: int) -> u64 {
    if v >= 0 {
        v as u64
    } else {
        (v + 0x1_0000_0000_0000_0000) as u64
    }
}

/// The signed value 64 bits hold, as two's complement.
pub open spec fn spec_i64_of_bits(b: u64) -> int {
    if b < 0x8000_0000_0000_0000 {
        b as int
    } else {
        b - 0x1_0000_0000_0000_0000
    }
}

/// The signed value 32 bits hold, as two's complement.
pub open spec fn spec_i32_of_bits(b: u32) -> int {
    if b < 0x8000_0000 {
        b as int
    } else {
        b - 0x1_0000_0000
    }
}

/// The signed value 16 bits hold, as two's complement.
pub open spec fn spec_i16_of_bits(b: u16) -> int {
    if b < 0x8000 {
        b as int
    } else {
        b - 0x1_0000
    }
}

/// The two's complement bits of a 16-bit-ranged value.
pub fn i16_bits(v: i64) -> (r: u16)
    requires
        -0x8000 <= v <= 0x7fff,
    ensures
        r == spec_i16_bits(v as int),
{
    if v >= 0 {
        v as u16
    } else {
        (v + 0x1_0000) as u16
    }
}

/// The two's complement bits of a 32-bit-ranged value.
pub fn i32_bits(v: i64) -> (r: u32)
    requires
        -0x8000_0000 <= v <= 0x7fff_ffff,
    ensures
        r == spec_i32_bits(v as int),
{
    if v >= 0 {
        v as u32
    } else {
        (v + 0x1_0000_0000) as u32
    }
}

/// The two's complement bits of a signed 64-bit value.
pub fn i64_bits(v: i64) -> (r: u64)
    ensures
        r == spec_i64_bits(v as int),
{
    if v >= 0 {
        v as u64
    } else {
        u64::MAX - ((-(v + 1)) as u64)
    }
}

/// The signed value of 64 two's complement bits.
pub fn i64_of_bits(b: u64) -> (r: i64)
    ensures
        r as int == spec_i64_of_bits(b),
{
    if b < 0x8000_0000_0000_0000 {
        b as i64
    } else {
        -((u64::MAX - b) as i64) - 1
    }
}

/// The signed value of 32 two's complement bits.
pub fn i32_of_bits(b: u32) -> (r: i64)
    ensures
        r as int == spec_i32_of_bits(b),
{
    if b < 0x8000_0000 {
        b as i64
    } else {
        (b as i64) - 0x1_0000_0000
    }
}

/// The signed value of 16 two's complement bits.
pub fn i16_of_bits(b: u16) -> (r: i64)
    ensures
        r as int == spec_i16_of_bits(b),
{
    if b < 0x8000 {
        b as i64
    } else {
        (b as i64) - 0x1_0000
    }
}

} // verus!
