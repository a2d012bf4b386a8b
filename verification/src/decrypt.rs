use vstd::prelude::*;
use vstd::slice::slice_subrange;
use crate::codec::{
    bytes_eq, spec_u32_from_be, spec_u32_to_be, spec_u32_to_le, u32_from_be, u32_to_be, u32_to_le,
};
use crate::crypto::{
    aes256_cbc_decrypt, hmac_sha1, pbkdf2_sha1, spec_aes256_cbc_decrypt, spec_hmac_sha1,
    spec_pbkdf2_sha1,
};
use crate::errors::{WxError, WxErrorKind, WxResult};
use crate::wal::{
    get_check_sum, spec_checksum_update, wal_byte_order, WalByteOrder,
};

verus! {

/// Every page of an encrypted database file is this long.
pub const PAGE_SIZE: usize = 4096;

/// The trailing reserve region of a page: a 16-byte IV, a 20-byte HMAC-SHA1
/// tag, and 12 unused bytes.
pub const RESERVE_SIZE: usize = 48;

/// The per-file salt occupies the first bytes of the database file.
pub const SALT_SIZE: usize = 16;

/// A WAL frame: a 24-byte frame header followed by one page payload.
pub const FRAME_SIZE: usize = 4120;

/// The WAL file header that is copied through unchanged.
pub const WAL_HEADER_SIZE: usize = 32;

/// PBKDF2 iteration count for the cipher key.
pub const KDF_ROUNDS: u32 = 64000;

/// PBKDF2 iteration count for the MAC key.
pub const MAC_KDF_ROUNDS: u32 = 2;

/// The byte every salt byte is XORed with to form the MAC salt.
pub const MAC_SALT_XOR: u8 = 0x3a;

/// The 16-byte header every plaintext SQLite database file begins with.
pub open spec fn spec_sqlite_header() -> Seq<u8> {
    seq![
        0x53u8, 0x51u8, 0x4cu8, 0x69u8, 0x74u8, 0x65u8, 0x20u8, 0x66u8,
        0x6fu8, 0x72u8, 0x6du8, 0x61u8, 0x74u8, 0x20u8, 0x33u8, 0x00u8,
    ]
}

/// Builds the 16-byte plaintext SQLite file header, `"SQLite format 3"`
/// followed by a NUL byte.
pub fn sqlite_header() -> (r: Vec<u8>)
    ensures
        r@ == spec_sqlite_header(),
{
    let mut r: Vec<u8> = Vec::new();
    r.push(0x53);
    r.push(0x51);
    r.push(0x4c);
    r.push(0x69);
    r.push(0x74);
    r.push(0x65);
    r.push(0x20);
    r.push(0x66);
    r.push(0x6f);
    r.push(0x72);
    r.push(0x6d);
    r.push(0x61);
    r.push(0x74);
    r.push(0x20);
    r.push(0x33);
    r.push(0x00);
    proof {
        assert(r@ =~= spec_sqlite_header());
    }
    r
}

/// The MAC salt: every salt byte XORed with `0x3a`.
pub open spec fn spec_mac_salt(salt: Seq<u8>) -> Seq<u8> {
    salt.map_values(|b: u8| b ^ MAC_SALT_XOR)
}

/// The MAC key derived from the cipher key and the MAC salt with two PBKDF2
/// rounds.
pub open spec fn spec_mac_key(cipher_key: Seq<u8>, mac_salt: Seq<u8>) -> Seq<u8> {
    spec_pbkdf2_sha1(cipher_key, mac_salt, MAC_KDF_ROUNDS)
}

/// The working key material derived once per database file: the cipher key
/// stretched from the caller's raw key and the file's salt, and the MAC salt
/// from which each page check re-derives the MAC key.
pub struct KeyMaterial {
    /// 32-byte AES-256 key: PBKDF2-HMAC-SHA1 of the raw key and the salt.
    pub cipher_key: Vec<u8>,
    /// 16-byte MAC salt: the file salt XORed with `0x3a`.
    pub mac_salt: Vec<u8>,
}

impl KeyMaterial {
    /// The sizes every well-formed key material has.
    pub open spec fn wf(&self) -> bool {
        self.cipher_key@.len() == 32 && self.mac_salt@.len() == 16
    }

    /// Derives the working key material for one file from the caller's raw
    /// key and the 16-byte salt read from the file's head.
    pub fn derive(key: &[u8], salt: &[u8]) -> (km: KeyMaterial)
        requires
            salt@.len() == 16,
        ensures
            km.wf(),
            km.cipher_key@ == spec_pbkdf2_sha1(key@, salt@, KDF_ROUNDS),
            km.mac_salt@ == spec_mac_salt(salt@),
    {
        let cipher_key = pbkdf2_sha1(key, salt, KDF_ROUNDS);
        let mut mac_salt: Vec<u8> = Vec::new();
        let mut i: usize = 0;
        while i < salt.len()
            invariant
                i <= salt@.len(),
                mac_salt@.len() == i,
                forall|j: int| 0 <= j < i ==> mac_salt@[j] == (salt@[j] ^ MAC_SALT_XOR),
            decreases salt@.len() - i,
        {
            mac_salt.push(salt[i] ^ MAC_SALT_XOR);
            i = i + 1;
        }
        proof {
            assert(mac_salt@ =~= spec_mac_salt(salt@));
        }
        KeyMaterial { cipher_key, mac_salt }
    }
}

/// The cryptographic region of a page: page 1 carries the file salt in its
/// first 16 bytes, which stand outside the encrypted and authenticated bytes.
pub open spec fn spec_page_region(data: Seq<u8>, index: u32) -> Seq<u8> {
    if index == 1 {
        data.skip(16)
    } else {
        data
    }
}

/// What a page's cryptographic region must look like before it can be
/// decrypted: room for the reserve region, and a block-aligned ciphertext.
pub open spec fn spec_page_input_ok(data: Seq<u8>, index: u32) -> bool {
    let page = spec_page_region(data, index);
    &&& index == 1 ==> data.len() >= 16
    &&& page.len() >= 48
    &&& (page.len() - 48) % 16 == 0
}

/// Whether a page authenticates: the HMAC-SHA1 tag of the page bytes before
/// the tag, followed by the little-endian page index, equals the 20 tag bytes
/// stored `hmac_offset` bytes from the page's end.
pub open spec fn spec_page_authentic(
    page: Seq<u8>,
    cipher_key: Seq<u8>,
    mac_salt: Seq<u8>,
    index: u32,
    hmac_offset: int,
) -> bool
    recommends
        20 <= hmac_offset <= page.len(),
{
    spec_hmac_sha1(
        spec_mac_key(cipher_key, mac_salt),
        page.take(page.len() - hmac_offset) + spec_u32_to_le(index),
    ) == page.subrange(page.len() - hmac_offset, page.len() - hmac_offset + 20)
}

/// Computes the page's HMAC-SHA1 tag and compares it with the stored one.
/// The MAC key is re-derived from the cipher key and the MAC salt each time.
pub fn check_hmac(data: &[u8], key: &[u8], salt: &[u8], index: u32, offset_hmac: usize) -> (r:
    bool)
    requires
        20 <= offset_hmac <= data@.len(),
    ensures
        r == spec_page_authentic(data@, key@, salt@, index, offset_hmac as int),
{
    let mac_key = pbkdf2_sha1(key, salt, MAC_KDF_ROUNDS);
    let n = data.len();
    let mut message: Vec<u8> = Vec::new();
    message.extend_from_slice(slice_subrange(data, 0, n - offset_hmac));
    let index_bytes = u32_to_le(index);
    message.extend_from_slice(index_bytes.as_slice());
    proof {
        assert(message@ =~= data@.take(data@.len() - offset_hmac) + spec_u32_to_le(index));
    }
    let tag = hmac_sha1(mac_key.as_slice(), message.as_slice());
    let stored = slice_subrange(data, n - offset_hmac, n - offset_hmac + 20);
    bytes_eq(tag.as_slice(), stored)
}

/// The plaintext form of one page: the fixed SQLite header in place of the
/// salt on page 1, then the AES-256-CBC decryption of the ciphertext under
/// the IV from the reserve region, then the reserve region carried through
/// unchanged.
pub open spec fn spec_decrypt_page(data: Seq<u8>, cipher_key: Seq<u8>, index: u32) -> Seq<u8> {
    let page = spec_page_region(data, index);
    let head: Seq<u8> = if index == 1 {
        spec_sqlite_header()
    } else {
        Seq::empty()
    };
    head + spec_aes256_cbc_decrypt(
        cipher_key,
        page.subrange(page.len() - 48, page.len() - 32),
        page.take(page.len() - 48),
    ) + data.subrange(data.len() - 48, data.len() as int)
}

/// Authenticates (when asked to) and decrypts one page.  Succeeds exactly
/// when authentication is skipped or passes; the plaintext never depends on
/// the check.
pub fn decrypt_page(index: u32, data: &[u8], key: &[u8], mac_salt: &[u8], check: bool) -> (r:
    WxResult<Vec<u8>>)
    requires
        key@.len() == 32,
        spec_page_input_ok(data@, index),
    ensures
        (r is Ok) == (!check || spec_page_authentic(
            spec_page_region(data@, index),
            key@,
            mac_salt@,
            index,
            32,
        )),
        r matches Ok(out) ==> out@ == spec_decrypt_page(data@, key@, index) && out@.len()
            == data@.len(),
        r matches Err(e) ==> e.kind is Custom,
{
    let n = data.len();
    let page: &[u8] = if index == 1 {
        slice_subrange(data, 16, n)
    } else {
        data
    };
    let plen = page.len();
    if check {
        if !check_hmac(page, key, mac_salt, index, 32) {
            return Err(WxError::custom(String::from_str("page authentication failed")));
        }
    }
    let iv = slice_subrange(page, plen - 48, plen - 32);
    let ciphertext = slice_subrange(page, 0, plen - 48);
    let body = aes256_cbc_decrypt(key, iv, ciphertext);
    let mut out: Vec<u8> = Vec::new();
    if index == 1 {
        let mut head = sqlite_header();
        out.append(&mut head);
    }
    out.extend_from_slice(body.as_slice());
    out.extend_from_slice(slice_subrange(data, n - 48, n));
    proof {
        assert(out@ =~= spec_decrypt_page(data@, key@, index));
    }
    Ok(out)
}

/// A database file is sound only when it holds whole pages.
pub open spec fn spec_db_size_ok(buffer: Seq<u8>) -> bool {
    buffer.len() >= 4096 && buffer.len() % 4096 == 0
}

/// The 1-based page `i` of a database file.
pub open spec fn spec_db_page(buffer: Seq<u8>, i: int) -> Seq<u8> {
    buffer.subrange(4096 * (i - 1), 4096 * i)
}

/// The cipher key a database file's salt derives from the raw key.
pub open spec fn spec_db_cipher_key(buffer: Seq<u8>, key: Seq<u8>) -> Seq<u8> {
    spec_pbkdf2_sha1(key, buffer.take(16), KDF_ROUNDS)
}

/// Whether the raw key authenticates the first page of the file.
pub open spec fn spec_db_key_ok(buffer: Seq<u8>, key: Seq<u8>) -> bool {
    spec_page_authentic(
        buffer.subrange(16, 4096),
        spec_db_cipher_key(buffer, key),
        spec_mac_salt(buffer.take(16)),
        1,
        32,
    )
}

/// Whether every page of the file authenticates under the derived keys.
pub open spec fn spec_db_all_pages_authentic(buffer: Seq<u8>, key: Seq<u8>) -> bool {
    forall|i: int|
        1 <= i <= buffer.len() / 4096 ==> spec_page_authentic(
            spec_page_region(#[trigger] spec_db_page(buffer, i), i as u32),
            spec_db_cipher_key(buffer, key),
            spec_mac_salt(buffer.take(16)),
            i as u32,
            32,
        )
}

/// The plaintext of the first `n` pages, in file order.
pub open spec fn spec_db_plain_upto(buffer: Seq<u8>, cipher_key: Seq<u8>, n: int) -> Seq<u8>
    decreases n,
{
    if n <= 0 {
        Seq::empty()
    } else {
        spec_db_plain_upto(buffer, cipher_key, n - 1) + spec_decrypt_page(
            spec_db_page(buffer, n),
            cipher_key,
            n as u32,
        )
    }
}

/// The plaintext of the whole database file.
pub open spec fn spec_db_plain(buffer: Seq<u8>, key: Seq<u8>) -> Seq<u8> {
    spec_db_plain_upto(buffer, spec_db_cipher_key(buffer, key), buffer.len() as int / 4096)
}

/// Decrypts a whole database file image.
///
/// The salt is the first 16 bytes; key material is derived from it once; the
/// first page must authenticate under the raw key.  When `need_check_hmac`
/// is set, every page must authenticate.  Any page that fails rejects the
/// whole file with an invalid-key error naming the key and `source_path`.
/// The output has the input's length, and its first 16 bytes are the literal
/// SQLite file header.
pub fn decrypt_db_bytes(buffer: &[u8], key: &[u8], need_check_hmac: bool, source_path: &str) -> (r:
    WxResult<Vec<u8>>)
    requires
        key@.len() == 32,
        buffer@.len() <= 4096 * 0xffff_ffff,
    ensures
        r is Ok <==> (spec_db_size_ok(buffer@) && spec_db_key_ok(buffer@, key@) && (need_check_hmac
            ==> spec_db_all_pages_authentic(buffer@, key@))),
        r matches Ok(out) ==> out@ == spec_db_plain(buffer@, key@) && out@.len() == buffer@.len()
            && out@.take(16) == spec_sqlite_header(),
        r matches Err(e) ==> (e.kind matches WxErrorKind::Malformed { .. } <==> !spec_db_size_ok(
            buffer@,
        )),
        r matches Err(e) ==> ((e.kind matches WxErrorKind::InvalidKey { key: k, path: p } && k@
            == key@ && p@ == source_path@) <==> spec_db_size_ok(buffer@)),
{
    let n = buffer.len();
    if n < PAGE_SIZE || n % PAGE_SIZE != 0 {
        return Err(WxError::malformed(String::from_str("not a whole number of pages")));
    }
    let salt = slice_subrange(buffer, 0, 16);
    let km = KeyMaterial::derive(key, salt);
    let first = slice_subrange(buffer, 16, 4096);
    proof {
        assert(salt@ =~= buffer@.take(16));
    }
    if !check_hmac(first, km.cipher_key.as_slice(), km.mac_salt.as_slice(), 1, 32) {
        proof {
            assert(!spec_db_key_ok(buffer@, key@));
        }
        let mut key_copy: Vec<u8> = Vec::new();
        key_copy.extend_from_slice(key);
        proof {
            assert(key_copy@ =~= key@);
        }
        return Err(WxError::invalid_key(key_copy, String::from_str(source_path)));
    }
    proof {
        assert(spec_db_key_ok(buffer@, key@));
    }
    let pages = n / 4096;
    proof {
        vstd::arithmetic::div_mod::lemma_div_is_ordered(n as int, 4096int * 0xffff_ffff, 4096);
        vstd::arithmetic::div_mod::lemma_div_multiples_vanish(0xffff_ffff, 4096);
    }
    let mut out: Vec<u8> = Vec::new();
    let mut i: usize = 0;
    while i < pages
        invariant
            n == buffer@.len(),
            n >= 4096,
            n % 4096 == 0,
            pages == n / 4096,
            pages <= 0xffff_ffff,
            i <= pages,
            spec_db_size_ok(buffer@),
            spec_db_key_ok(buffer@, key@),
            km.wf(),
            km.cipher_key@ == spec_db_cipher_key(buffer@, key@),
            km.mac_salt@ == spec_mac_salt(buffer@.take(16)),
            out@ == spec_db_plain_upto(buffer@, km.cipher_key@, i as int),
            out@.len() == 4096 * i,
            i >= 1 ==> out@.take(16) == spec_sqlite_header(),
            need_check_hmac ==> forall|j: int|
                1 <= j <= i ==> spec_page_authentic(
                    spec_page_region(#[trigger] spec_db_page(buffer@, j), j as u32),
                    km.cipher_key@,
                    km.mac_salt@,
                    j as u32,
                    32,
                ),
        decreases pages - i,
    {
        proof {
            assert((i + 1) * 4096 <= n) by (nonlinear_arith)
                requires
                    i < pages,
                    pages == n / 4096,
                    n % 4096 == 0,
                    0 <= i,
                    0 <= n,
            ;
            assert(4096 * i == i * 4096 && 4096 * (i + 1) == (i + 1) * 4096) by (nonlinear_arith);
        }
        let page = slice_subrange(buffer, i * 4096, (i + 1) * 4096);
        let index = (i as u32) + 1;
        proof {
            assert(page@ == spec_db_page(buffer@, i + 1));
            assert(spec_page_region(page@, index).len() >= 48 && (spec_page_region(
                page@,
                index,
            ).len() - 48) % 16 == 0);
        }
        match decrypt_page(
            index,
            page,
            km.cipher_key.as_slice(),
            km.mac_salt.as_slice(),
            need_check_hmac,
        ) {
            Ok(mut plain) => {
                proof {
                    if i == 0 {
                        assert(spec_sqlite_header().len() == 16);
                        assert(plain@.take(16) =~= spec_sqlite_header());
                    }
                }
                let ghost old_out = out@;
                out.append(&mut plain);
                proof {
                    if i >= 1 {
                        assert(out@.take(16) =~= old_out.take(16));
                    } else {
                        assert(out@.take(16) =~= spec_sqlite_header());
                    }
                }
            },
            Err(_) => {
                proof {
                    assert(!spec_page_authentic(
                        spec_page_region(spec_db_page(buffer@, i + 1), (i + 1) as u32),
                        km.cipher_key@,
                        km.mac_salt@,
                        (i + 1) as u32,
                        32,
                    ));
                    assert(!spec_db_all_pages_authentic(buffer@, key@));
                }
                let mut key_copy: Vec<u8> = Vec::new();
                key_copy.extend_from_slice(key);
                proof {
                    assert(key_copy@ =~= key@);
                }
                return Err(WxError::invalid_key(key_copy, String::from_str(source_path)));
            },
        }
        i = i + 1;
    }
    Ok(out)
}

/// A non-empty WAL file must hold its 32-byte header and whole frames.
pub open spec fn spec_wal_size_ok(wal: Seq<u8>) -> bool {
    wal.len() >= 32 && (wal.len() - 32) % 4120 == 0
}

/// The byte order a WAL header marker selects (meaningful only for the two
/// accepted marker values).
pub open spec fn spec_wal_order(marker: u8) -> WalByteOrder {
    if marker == 0x82 {
        WalByteOrder::LittleEndian
    } else {
        WalByteOrder::BigEndian
    }
}

/// The checksum state seeded from the first 24 bytes of the WAL header.
pub open spec fn spec_wal_seed(wal: Seq<u8>, order: WalByteOrder) -> (u32, u32) {
    spec_checksum_update(0, 0, wal.take(24), order)
}

/// The page number a WAL frame names, read big-endian from its head.
pub open spec fn spec_frame_page_index(frame: Seq<u8>) -> u32 {
    spec_u32_from_be(frame.subrange(0, 4))
}

/// The pre-decryption checksum chain advanced over one frame: its first
/// eight header bytes, then its raw encrypted payload.
pub open spec fn spec_frame_pre_next(frame: Seq<u8>, order: WalByteOrder, pre: (u32, u32)) -> (
    u32,
    u32,
) {
    let h = spec_checksum_update(pre.0, pre.1, frame.take(8), order);
    spec_checksum_update(h.0, h.1, frame.skip(24), order)
}

/// The post-decryption checksum chain advanced over one frame: its first
/// eight header bytes, then its decrypted payload.
pub open spec fn spec_frame_post_next(
    frame: Seq<u8>,
    cipher_key: Seq<u8>,
    order: WalByteOrder,
    post: (u32, u32),
) -> (u32, u32) {
    let h = spec_checksum_update(post.0, post.1, frame.take(8), order);
    spec_checksum_update(
        h.0,
        h.1,
        spec_decrypt_page(frame.skip(24), cipher_key, spec_frame_page_index(frame)),
        order,
    )
}

/// One rewritten WAL frame.  A frame whose embedded checksum pair equals the
/// running pre-decryption chain is rewritten with the post-decryption pair,
/// so its on-disk checksum matches the decrypted content; any other frame
/// keeps its original 24-byte header.  Either way the payload is decrypted
/// under the page number the frame names.
pub open spec fn spec_frame_out(
    frame: Seq<u8>,
    cipher_key: Seq<u8>,
    order: WalByteOrder,
    pre: (u32, u32),
    post: (u32, u32),
) -> Seq<u8> {
    let pre_next = spec_frame_pre_next(frame, order, pre);
    let post_next = spec_frame_post_next(frame, cipher_key, order, post);
    let plain = spec_decrypt_page(frame.skip(24), cipher_key, spec_frame_page_index(frame));
    let head = if spec_u32_from_be(frame.subrange(16, 20)) == pre_next.0 && spec_u32_from_be(
        frame.subrange(20, 24),
    ) == pre_next.1 {
        frame.take(16) + spec_u32_to_be(post_next.0) + spec_u32_to_be(post_next.1)
    } else {
        frame.take(24)
    };
    head + plain
}

/// The rewritten frames of a WAL file, one 4120-byte frame at a time, both
/// checksum chains carried forward in strict file order.
#[verifier::opaque]
pub open spec fn spec_wal_frames(
    rest: Seq<u8>,
    cipher_key: Seq<u8>,
    order: WalByteOrder,
    pre: (u32, u32),
    post: (u32, u32),
) -> Seq<u8>
    decreases rest.len(),
{
    if rest.len() < 4120 {
        Seq::empty()
    } else {
        let frame = rest.take(4120);
        spec_frame_out(frame, cipher_key, order, pre, post) + spec_wal_frames(
            rest.skip(4120),
            cipher_key,
            order,
            spec_frame_pre_next(frame, order, pre),
            spec_frame_post_next(frame, cipher_key, order, post),
        )
    }
}

/// The rewritten WAL file: the 32-byte header copied verbatim, then the
/// frames.
pub open spec fn spec_wal_plain(wal: Seq<u8>, cipher_key: Seq<u8>) -> Seq<u8>
    recommends
        spec_wal_size_ok(wal),
{
    let order = spec_wal_order(wal[3]);
    let seed = spec_wal_seed(wal, order);
    wal.take(32) + spec_wal_frames(wal.skip(32), cipher_key, order, seed, seed)
}

/// Decrypts one WAL frame payload.  When `check` is set the page is
/// authenticated first, but a failing frame is still decrypted: the engine
/// never drops a WAL frame, so validation cannot change the output.
fn decrypt_wal_payload(page_index: u32, payload: &[u8], km: &KeyMaterial, check: bool) -> (r: Vec<
    u8,
>)
    requires
        km.wf(),
        spec_page_input_ok(payload@, page_index),
    ensures
        r@ == spec_decrypt_page(payload@, km.cipher_key@, page_index),
        r@.len() == payload@.len(),
{
    if check {
        match decrypt_page(page_index, payload, km.cipher_key.as_slice(), km.mac_salt.as_slice(), true) {
            Ok(p) => {
                return p;
            },
            Err(_) => {},
        }
    }
    match decrypt_page(page_index, payload, km.cipher_key.as_slice(), km.mac_salt.as_slice(), false) {
        Ok(p) => p,
        Err(_) => {
            proof {
                assert(false);
            }
            Vec::new()
        },
    }
}

/// Rewrites one WAL frame and advances both checksum chains.
fn decrypt_wal_frame(
    frame: &[u8],
    km: &KeyMaterial,
    order: WalByteOrder,
    need_check_hmac: bool,
    pre: (u32, u32),
    post: (u32, u32),
) -> (r: (Vec<u8>, (u32, u32), (u32, u32)))
    requires
        km.wf(),
        frame@.len() == 4120,
    ensures
        r.0@ == spec_frame_out(frame@, km.cipher_key@, order, pre, post),
        r.0@.len() == 4120,
        r.1 == spec_frame_pre_next(frame@, order, pre),
        r.2 == spec_frame_post_next(frame@, km.cipher_key@, order, post),
{
    let page_index = u32_from_be(slice_subrange(frame, 0, 4));
    let frame_sum1 = u32_from_be(slice_subrange(frame, 16, 20));
    let frame_sum2 = u32_from_be(slice_subrange(frame, 20, 24));
    let head8 = slice_subrange(frame, 0, 8);
    let payload = slice_subrange(frame, 24, 4120);
    proof {
        assert(head8@ =~= frame@.take(8));
        assert(payload@ =~= frame@.skip(24));
        assert(spec_page_input_ok(payload@, page_index));
    }
    let pre_head = get_check_sum(pre.0, pre.1, head8, order);
    let pre_next = get_check_sum(pre_head.0, pre_head.1, payload, order);
    let plain = decrypt_wal_payload(page_index, payload, km, need_check_hmac);
    let post_head = get_check_sum(post.0, post.1, head8, order);
    let post_next = get_check_sum(post_head.0, post_head.1, plain.as_slice(), order);
    let mut out: Vec<u8> = Vec::new();
    if frame_sum1 == pre_next.0 && frame_sum2 == pre_next.1 {
        out.extend_from_slice(slice_subrange(frame, 0, 16));
        let sum1_bytes = u32_to_be(post_next.0);
        let sum2_bytes = u32_to_be(post_next.1);
        out.extend_from_slice(sum1_bytes.as_slice());
        out.extend_from_slice(sum2_bytes.as_slice());
    } else {
        out.extend_from_slice(slice_subrange(frame, 0, 24));
    }
    out.extend_from_slice(plain.as_slice());
    proof {
        assert(frame@.subrange(0, 16) =~= frame@.take(16));
        assert(frame@.subrange(0, 24) =~= frame@.take(24));
        assert(out@ =~= spec_frame_out(frame@, km.cipher_key@, order, pre, post));
    }
    (out, pre_next, post_next)
}

/// Rewrites the frame at byte offset `off` of the WAL image.
fn wal_step(
    wal: &[u8],
    off: usize,
    km: &KeyMaterial,
    order: WalByteOrder,
    need_check_hmac: bool,
    pre: (u32, u32),
    post: (u32, u32),
) -> (r: (Vec<u8>, (u32, u32), (u32, u32)))
    requires
        km.wf(),
        off as int + 4120 <= wal@.len(),
    ensures
        r.0@ == spec_frame_out(
            wal@.skip(off as int).take(4120),
            km.cipher_key@,
            order,
            pre,
            post,
        ),
        r.0@.len() == 4120,
        r.1 == spec_frame_pre_next(wal@.skip(off as int).take(4120), order, pre),
        r.2 == spec_frame_post_next(
            wal@.skip(off as int).take(4120),
            km.cipher_key@,
            order,
            post,
        ),
{
    let n = wal.len();
    let frame = slice_subrange(wal, off, off + 4120);
    proof {
        assert(frame@ =~= wal@.skip(off as int).take(4120));
    }
    decrypt_wal_frame(frame, km, order, need_check_hmac, pre, post)
}

/// One step of the WAL rewrite: peeling the first frame off the remaining
/// input moves its rewritten bytes from the pending fold into the output.
proof fn lemma_wal_loop_step(
    goal: Seq<u8>,
    prev_out: Seq<u8>,
    wal: Seq<u8>,
    off: int,
    piece: Seq<u8>,
    cipher_key: Seq<u8>,
    order: WalByteOrder,
    pre: (u32, u32),
    post: (u32, u32),
)
    requires
        0 <= off,
        off + 4120 <= wal.len(),
        goal == prev_out + spec_wal_frames(wal.skip(off), cipher_key, order, pre, post),
        piece == spec_frame_out(wal.skip(off).take(4120), cipher_key, order, pre, post),
    ensures
        goal == (prev_out + piece) + spec_wal_frames(
            wal.skip(off + 4120),
            cipher_key,
            order,
            spec_frame_pre_next(wal.skip(off).take(4120), order, pre),
            spec_frame_post_next(wal.skip(off).take(4120), cipher_key, order, post),
        ),
{
    let rest = wal.skip(off);
    assert(rest.skip(4120) =~= wal.skip(off + 4120));
    reveal(spec_wal_frames);
    let tail = spec_wal_frames(
        rest.skip(4120),
        cipher_key,
        order,
        spec_frame_pre_next(rest.take(4120), order, pre),
        spec_frame_post_next(rest.take(4120), cipher_key, order, post),
    );
    assert(spec_wal_frames(rest, cipher_key, order, pre, post) == piece + tail);
    assert(prev_out + (piece + tail) =~= (prev_out + piece) + tail);
}

/// Decrypts a whole WAL file image with key material already derived for the
/// sibling main database file.
///
/// A missing or empty WAL is not an error: the empty image yields no output
/// at all.  Otherwise the image must hold the 32-byte header, whole 4120-byte
/// frames, and a known byte-order marker; the output copies the header
/// verbatim and rewrites each frame as [`spec_wal_frames`] says.
#[verifier::rlimit(100)]
pub fn decrypt_wal_bytes(wal: &[u8], km: &KeyMaterial, need_check_hmac: bool) -> (r: WxResult<
    Option<Vec<u8>>,
>)
    requires
        km.wf(),
    ensures
        wal@.len() == 0 ==> (r matches Ok(x) && x is None),
        wal@.len() > 0 && !spec_wal_size_ok(wal@) ==> (r matches Err(e) && e.kind matches
            WxErrorKind::Malformed { .. }),
        spec_wal_size_ok(wal@) && wal@[3] != 0x82 && wal@[3] != 0x83 ==> (r matches Err(e)
            && e.kind matches WxErrorKind::Malformed { .. }),
        spec_wal_size_ok(wal@) && (wal@[3] == 0x82 || wal@[3] == 0x83) ==> (r matches Ok(x)
            && x matches Some(v) && v@ == spec_wal_plain(wal@, km.cipher_key@) && v@.len()
            == wal@.len() && v@.take(32) == wal@.take(32)),
{
    let n = wal.len();
    if n == 0 {
        return Ok(None);
    }
    if n < WAL_HEADER_SIZE || (n - WAL_HEADER_SIZE) % FRAME_SIZE != 0 {
        return Err(WxError::malformed(String::from_str("not a whole number of WAL frames")));
    }
    let order = match wal_byte_order(wal[3]) {
        Ok(o) => o,
        Err(e) => {
            return Err(e);
        },
    };
    let seed = get_check_sum(0, 0, slice_subrange(wal, 0, 24), order);
    proof {
        assert(wal@.subrange(0, 24) =~= wal@.take(24));
    }
    let mut out: Vec<u8> = Vec::new();
    out.extend_from_slice(slice_subrange(wal, 0, 32));
    let mut pre = seed;
    let mut post = seed;
    let mut off: usize = 32;
    proof {
        assert(out@ =~= wal@.take(32));
        assert(out@.take(32) =~= wal@.take(32));
    }
    while off < n
        invariant
            n == wal@.len(),
            32 <= off <= n,
            (n - off) % 4120 == 0,
            km.wf(),
            out@.len() == off,
            order == spec_wal_order(wal@[3]),
            spec_wal_size_ok(wal@),
            spec_wal_plain(wal@, km.cipher_key@) == out@ + spec_wal_frames(
                wal@.skip(off as int),
                km.cipher_key@,
                order,
                pre,
                post,
            ),
        decreases n - off,
    {
        proof {
            assert(off + 4120 <= n) by (nonlinear_arith)
                requires
                    off < n,
                    (n - off) % 4120 == 0,
                    0 <= off,
                    0 <= n,
            ;
        }
        let ghost prev_out = out@;
        let (mut piece, pre_next, post_next) = wal_step(
            wal,
            off,
            km,
            order,
            need_check_hmac,
            pre,
            post,
        );
        let ghost piece_view = piece@;
        out.append(&mut piece);
        proof {
            lemma_wal_loop_step(
                spec_wal_plain(wal@, km.cipher_key@),
                prev_out,
                wal@,
                off as int,
                piece_view,
                km.cipher_key@,
                order,
                pre,
                post,
            );
        }
        pre = pre_next;
        post = post_next;
        off = off + 4120;
    }
    proof {
        reveal(spec_wal_frames);
        assert(wal@.skip(n as int).len() == 0);
        assert(spec_wal_plain(wal@, km.cipher_key@) =~= out@);
        assert(out@.take(32) =~= wal@.take(32));
    }
    Ok(Some(out))
}

/// A frame whose embedded checksum pair does not match the recomputed
/// pre-decryption chain keeps its original 24-byte frame header in the
/// rewritten WAL, whatever else the file holds.
pub proof fn lemma_wal_frame_header_kept(
    rest: Seq<u8>,
    cipher_key: Seq<u8>,
    order: WalByteOrder,
    pre: (u32, u32),
    post: (u32, u32),
)
    requires
        rest.len() >= 4120,
        ({
            let frame = rest.take(4120);
            let pre_next = spec_frame_pre_next(frame, order, pre);
            spec_u32_from_be(frame.subrange(16, 20)) != pre_next.0 || spec_u32_from_be(
                frame.subrange(20, 24),
            ) != pre_next.1
        }),
    ensures
        spec_wal_frames(rest, cipher_key, order, pre, post).take(24) == rest.take(24),
{
    reveal(spec_wal_frames);
    let frame = rest.take(4120);
    let out = spec_wal_frames(rest, cipher_key, order, pre, post);
    assert(out.take(24) =~= frame.take(24));
    assert(frame.take(24) =~= rest.take(24));
}



/// What one decryption run works on: the encrypted tree, the output tree,
/// the caller-supplied raw key, and whether to authenticate every page.
/// Walking the trees and moving bytes in and out of files is I/O that stands
/// outside this crate; the byte-level work is [`decrypt_db_bytes`] and
/// [`decrypt_wal_bytes`].
#[derive(Debug)]
pub struct WxDecryptor {
    /// The tree holding the encrypted databases.
    pub source_path: String,
    /// The tree the decrypted files are written into.
    pub output_path: String,
    /// The caller-supplied 32-byte raw key.
    pub key: [u8; 32],
    /// Whether to authenticate every page, not only the first.
    pub need_check_hmac: bool,
}

} // verus!
