use vstd::prelude::*;
use crate::codec::{spec_u32_from_be, spec_u32_from_le, u32_from_be, u32_from_le};
use crate::errors::{WxError, WxResult};

verus! {

/// Which way the 32-bit checksum words of a write-ahead log are laid out on
/// disk.  Byte 3 of the WAL header decides once per file: `0x82` means
/// little-endian words, `0x83` big-endian; anything else is rejected.
#[derive(Clone, Copy, Debug, PartialEq, Eq, Structural)]
pub enum WalByteOrder {
    /// Checksum words are read least significant byte first.
    LittleEndian,
    /// Checksum words are read most significant byte first.
    BigEndian,
}

/// The 32-bit word at byte offset `i`, read in `order`.
pub open spec fn spec_wal_word(b: Seq<u8>, i: int, order: WalByteOrder) -> u32
    recommends
        0 <= i,
        i + 4 <= b.len(),
{
    match order {
        WalByteOrder::LittleEndian => spec_u32_from_le(b.subrange(i, i + 4)),
        WalByteOrder::BigEndian => spec_u32_from_be(b.subrange(i, i + 4)),
    }
}

/// One step of the rolling checksum: fold the next two words into the
/// accumulator pair, with 32-bit wraparound.
pub open spec fn spec_checksum_step(s1: u32, s2: u32, w0: u32, w1: u32) -> (u32, u32) {
    let n1 = ((s1 + w0 + s2) % 0x1_0000_0000) as u32;
    let n2 = ((s2 + w1 + n1) % 0x1_0000_0000) as u32;
    (n1, n2)
}

/// The rolling checksum over `b`, eight bytes (two words) at a time, in strict
/// left-to-right order, starting from `(s1, s2)`.  A ragged tail of fewer than
/// eight bytes is not consumed; callers only feed lengths divisible by eight.
pub open spec fn spec_checksum_update(s1: u32, s2: u32, b: Seq<u8>, order: WalByteOrder) -> (u32,
    u32)
    decreases b.len(),
{
    if b.len() < 8 {
        (s1, s2)
    } else {
        let n = spec_checksum_step(s1, s2, spec_wal_word(b, 0, order), spec_wal_word(b, 4, order));
        spec_checksum_update(n.0, n.1, b.skip(8), order)
    }
}

/// Resolves the byte-order marker of a WAL header (its byte at offset 3).
pub fn wal_byte_order(marker: u8) -> (r: WxResult<WalByteOrder>)
    ensures
        marker == 0x82 ==> (r matches Ok(o) && o == WalByteOrder::LittleEndian),
        marker == 0x83 ==> (r matches Ok(o) && o == WalByteOrder::BigEndian),
        marker != 0x82 && marker != 0x83 ==> (r matches Err(e) && e.kind matches
            crate::errors::WxErrorKind::Malformed { .. }),
{
    if marker == 0x82 {
        Ok(WalByteOrder::LittleEndian)
    } else if marker == 0x83 {
        Ok(WalByteOrder::BigEndian)
    } else {
        Err(WxError::malformed(String::from_str("bad WAL byte-order marker")))
    }
}

/// Reads the 32-bit word at byte offset `i` of `b` in the given order.
pub fn wal_word(b: &[u8], i: usize, order: WalByteOrder) -> (w: u32)
    requires
        i + 4 <= b@.len(),
    ensures
        w == spec_wal_word(b@, i as int, order),
{
    let n = b.len();
    let quad = vstd::slice::slice_subrange(b, i, i + 4);
    match order {
        WalByteOrder::LittleEndian => u32_from_le(quad),
        WalByteOrder::BigEndian => u32_from_be(quad),
    }
}

fn checksum_step(s1: u32, s2: u32, w0: u32, w1: u32) -> (r: (u32, u32))
    ensures
        r == spec_checksum_step(s1, s2, w0, w1),
{
    let n1 = ((s1 as u64 + w0 as u64 + s2 as u64) % 0x1_0000_0000) as u32;
    let n2 = ((s2 as u64 + w1 as u64 + n1 as u64) % 0x1_0000_0000) as u32;
    (n1, n2)
}

/// Advances the rolling checksum `(s1, s2)` over `list`, two 32-bit words at a
/// time, in file order.  The result is a pure function of the inputs: feeding
/// the same state, bytes and byte order always yields the same pair.
pub fn get_check_sum(s1: u32, s2: u32, list: &[u8], order: WalByteOrder) -> (r: (u32, u32))
    requires
        list@.len() % 8 == 0,
    ensures
        r == spec_checksum_update(s1, s2, list@, order),
{
    let n = list.len();
    let mut c1 = s1;
    let mut c2 = s2;
    let mut i: usize = 0;
    proof {
        assert(list@.skip(0) =~= list@);
    }
    while i < n
        invariant
            n == list@.len(),
            n % 8 == 0,
            i % 8 == 0,
            i <= n,
            spec_checksum_update(s1, s2, list@, order) == spec_checksum_update(
                c1,
                c2,
                list@.skip(i as int),
                order,
            ),
        decreases n - i,
    {
        proof {
            assert(i + 8 <= n) by (nonlinear_arith)
                requires
                    i < n,
                    i % 8 == 0,
                    n % 8 == 0,
                    0 <= i,
                    0 <= n,
            ;
        }
        let w0 = wal_word(list, i, order);
        let w1 = wal_word(list, i + 4, order);
        proof {
            assert(list@.skip(i as int).subrange(0, 4) =~= list@.subrange(i as int, i as int + 4));
            assert(list@.skip(i as int).subrange(4, 8) =~= list@.subrange(
                i as int + 4,
                i as int + 8,
            ));
            assert(list@.skip(i as int).skip(8) =~= list@.skip(i as int + 8));
        }
        let next = checksum_step(c1, c2, w0, w1);
        c1 = next.0;
        c2 = next.1;
        i = i + 8;
    }
    (c1, c2)
}

/// The checksum chain splits at any eight-byte boundary: running it over
/// `a + b` equals running it over `a`, then over `b` from the state reached.
pub proof fn lemma_checksum_update_concat(
    s1: u32,
    s2: u32,
    a: Seq<u8>,
    b: Seq<u8>,
    order: WalByteOrder,
)
    requires
        a.len() % 8 == 0,
    ensures
        spec_checksum_update(s1, s2, a + b, order) == {
            let mid = spec_checksum_update(s1, s2, a, order);
            spec_checksum_update(mid.0, mid.1, b, order)
        },
    decreases a.len(),
{
    if a.len() == 0 {
        assert(a + b =~= b);
    } else {
        assert(a.len() >= 8);
        let ab = a + b;
        assert(ab.subrange(0, 4) =~= a.subrange(0, 4));
        assert(ab.subrange(4, 8) =~= a.subrange(4, 8));
        assert(ab.skip(8) =~= a.skip(8) + b);
        let n = spec_checksum_step(
            s1,
            s2,
            spec_wal_word(a, 0, order),
            spec_wal_word(a, 4, order),
        );
        lemma_checksum_update_concat(n.0, n.1, a.skip(8), b, order);
    }
}

/// Reading one eight-byte block in the two byte orders gives different
/// checksum pairs from any starting state, unless both of its words are
/// byte-palindromic (for those, the two readings coincide).
pub proof fn lemma_checksum_order_sensitive(s1: u32, s2: u32, b: Seq<u8>)
    requires
        b.len() == 8,
        b[0] != b[3] || b[1] != b[2] || b[4] != b[7] || b[5] != b[6],
    ensures
        spec_checksum_update(s1, s2, b, WalByteOrder::LittleEndian) != spec_checksum_update(
            s1,
            s2,
            b,
            WalByteOrder::BigEndian,
        ),
{
    let le = WalByteOrder::LittleEndian;
    let be = WalByteOrder::BigEndian;
    assert(b.skip(8).len() == 0);
    let w0l = spec_wal_word(b, 0, le);
    let w0b = spec_wal_word(b, 0, be);
    let w1l = spec_wal_word(b, 4, le);
    let w1b = spec_wal_word(b, 4, be);
    lemma_word_order_equal_iff_palindromic(b.subrange(0, 4));
    lemma_word_order_equal_iff_palindromic(b.subrange(4, 8));
    assert(b.subrange(4, 8)[0] == b[4] && b.subrange(4, 8)[3] == b[7] && b.subrange(4, 8)[1]
        == b[5] && b.subrange(4, 8)[2] == b[6]);
    let nl = spec_checksum_step(s1, s2, w0l, w1l);
    let nb = spec_checksum_step(s1, s2, w0b, w1b);
    let ul = spec_checksum_update(s1, s2, b, le);
    let ub = spec_checksum_update(s1, s2, b, be);
    assert(ul == spec_checksum_update(nl.0, nl.1, b.skip(8), le));
    assert(ub == spec_checksum_update(nb.0, nb.1, b.skip(8), be));
    assert(ul.0 == nl.0 && ul.1 == nl.1);
    assert(ub.0 == nb.0 && ub.1 == nb.1);
    if w0l != w0b {
        lemma_sum_mod_distinct(s1 + s2, w0l, w0b);
        assert(nl.0 != nb.0);
        assert(ul.0 != ub.0);
    } else {
        lemma_sum_mod_distinct(s2 + nl.0, w1l, w1b);
        assert(nl.1 != nb.1);
        assert(ul.1 != ub.1);
    }
}

/// Adding distinct 32-bit values to the same base gives distinct residues.
proof fn lemma_sum_mod_distinct(base: int, x: u32, y: u32)
    requires
        0 <= base,
        x != y,
    ensures
        (base + x) % 0x1_0000_0000 != (base + y) % 0x1_0000_0000,
{
    let m = 0x1_0000_0000;
    let bm = base % m;
    vstd::arithmetic::div_mod::lemma_add_mod_noop(base, x as int, m);
    vstd::arithmetic::div_mod::lemma_add_mod_noop(base, y as int, m);
    vstd::arithmetic::div_mod::lemma_mod_bound(base, m);
    if bm + x < m && bm + y < m {
        vstd::arithmetic::div_mod::lemma_small_mod((bm + x) as nat, m as nat);
        vstd::arithmetic::div_mod::lemma_small_mod((bm + y) as nat, m as nat);
    } else if bm + x >= m && bm + y >= m {
        vstd::arithmetic::div_mod::lemma_mod_sub_multiples_vanish(bm + x - m, m);
        vstd::arithmetic::div_mod::lemma_mod_sub_multiples_vanish(bm + y - m, m);
        vstd::arithmetic::div_mod::lemma_small_mod((bm + x - m) as nat, m as nat);
        vstd::arithmetic::div_mod::lemma_small_mod((bm + y - m) as nat, m as nat);
    } else if bm + x < m {
        vstd::arithmetic::div_mod::lemma_small_mod((bm + x) as nat, m as nat);
        vstd::arithmetic::div_mod::lemma_mod_sub_multiples_vanish(bm + y - m, m);
        vstd::arithmetic::div_mod::lemma_small_mod((bm + y - m) as nat, m as nat);
    } else {
        vstd::arithmetic::div_mod::lemma_small_mod((bm + y) as nat, m as nat);
        vstd::arithmetic::div_mod::lemma_mod_sub_multiples_vanish(bm + x - m, m);
        vstd::arithmetic::div_mod::lemma_small_mod((bm + x - m) as nat, m as nat);
    }
}

/// A four-byte word reads the same in both byte orders exactly when its
/// outer and inner byte pairs each match.
proof fn lemma_word_order_equal_iff_palindromic(q: Seq<u8>)
    requires
        q.len() == 4,
    ensures
        (spec_u32_from_le(q) == spec_u32_from_be(q)) <==> (q[0] == q[3] && q[1]
            == q[2]),
{
    let b0 = q[0];
    let b1 = q[1];
    let b2 = q[2];
    let b3 = q[3];
    assert(((b0 as u32 | (b1 as u32) << 8 | (b2 as u32) << 16 | (b3 as u32) << 24) == (b3 as u32 | (
    b2 as u32) << 8 | (b1 as u32) << 16 | (b0 as u32) << 24)) <==> (b0 == b3 && b1 == b2))
        by (bit_vector);
}

} // verus!
