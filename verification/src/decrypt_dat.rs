use vstd::prelude::*;
use vstd::slice::slice_to_vec;
use vstd::string::*;
use crate::codec::bytes_eq;

verus! {

/// One known file signature: the leading magic bytes of a format and the
/// extension written for files recognised by it.
pub struct MagicHead {
    /// The magic bytes a file of this format begins with.
    pub head: Vec<u8>,
    /// The file extension the format is given.
    pub extension: String,
}

/// Strict lexicographic order on byte strings.
pub open spec fn spec_bytes_lt(a: Seq<u8>, b: Seq<u8>) -> bool
    decreases a.len() + b.len(),
{
    if b.len() == 0 {
        false
    } else if a.len() == 0 {
        true
    } else if a[0] < b[0] {
        true
    } else if a[0] > b[0] {
        false
    } else {
        spec_bytes_lt(a.drop_first(), b.drop_first())
    }
}

/// No byte string is below itself.
proof fn lemma_bytes_lt_irrefl(a: Seq<u8>)
    ensures
        !spec_bytes_lt(a, a),
    decreases a.len(),
{
    if a.len() > 0 {
        lemma_bytes_lt_irrefl(a.drop_first());
    }
}

/// Two byte strings are ordered one way, the other way, or equal.
proof fn lemma_bytes_lt_total(a: Seq<u8>, b: Seq<u8>)
    ensures
        spec_bytes_lt(a, b) || spec_bytes_lt(b, a) || a == b,
    decreases a.len() + b.len(),
{
    if a.len() == 0 && b.len() == 0 {
        assert(a =~= b);
    } else if a.len() > 0 && b.len() > 0 && a[0] == b[0] {
        lemma_bytes_lt_total(a.drop_first(), b.drop_first());
        if !spec_bytes_lt(a, b) && !spec_bytes_lt(b, a) {
            assert(a.drop_first() == b.drop_first());
            assert forall|k: int| 0 <= k < a.len() implies a[k] == b[k] by {
                if k > 0 {
                    assert(a.drop_first()[k - 1] == b.drop_first()[k - 1]);
                }
            };
            assert(a =~= b);
        }
    }
}

/// The lexicographic order is transitive.
proof fn lemma_bytes_lt_trans(a: Seq<u8>, b: Seq<u8>, c: Seq<u8>)
    requires
        spec_bytes_lt(a, b),
        spec_bytes_lt(b, c),
    ensures
        spec_bytes_lt(a, c),
    decreases a.len() + b.len() + c.len(),
{
    if a.len() > 0 && b.len() > 0 && c.len() > 0 && a[0] == b[0] && b[0] == c[0] {
        lemma_bytes_lt_trans(a.drop_first(), b.drop_first(), c.drop_first());
    }
}

/// The extension recorded for `h`, scanning front to back.
pub open spec fn spec_assoc(s: Seq<MagicHead>, h: Seq<u8>) -> Option<Seq<char>>
    decreases s.len(),
{
    if s.len() == 0 {
        None
    } else if s[0].head@ == h {
        Some(s[0].extension@)
    } else {
        spec_assoc(s.drop_first(), h)
    }
}

/// Scanning a concatenation finds the first half's entry first.
proof fn lemma_assoc_concat(s1: Seq<MagicHead>, s2: Seq<MagicHead>, h: Seq<u8>)
    ensures
        spec_assoc(s1 + s2, h) == if spec_assoc(s1, h) is Some {
            spec_assoc(s1, h)
        } else {
            spec_assoc(s2, h)
        },
    decreases s1.len(),
{
    if s1.len() == 0 {
        assert(s1 + s2 =~= s2);
    } else {
        assert((s1 + s2).drop_first() =~= s1.drop_first() + s2);
        lemma_assoc_concat(s1.drop_first(), s2, h);
    }
}

/// A scan over entries none of which carry `h` finds nothing.
proof fn lemma_assoc_none(s: Seq<MagicHead>, h: Seq<u8>)
    requires
        forall|j: int| 0 <= j < s.len() ==> (#[trigger] s[j].head@) != h,
    ensures
        spec_assoc(s, h) is None,
    decreases s.len(),
{
    if s.len() > 0 {
        lemma_assoc_none(s.drop_first(), h);
    }
}

/// Whether an entry's magic matches the first two bytes of a file, up to one
/// constant XOR byte: both positions must give the same XOR difference.
/// Entries of fewer than two magic bytes never match.
pub open spec fn spec_xor_matches(e: MagicHead, input: Seq<u8>) -> bool {
    e.head@.len() >= 2 && input.len() >= 2 && (e.head@[0] ^ input[0]) == (e.head@[1] ^ input[1])
}

/// The index of the last matching entry, or -1 if none matches.
pub open spec fn spec_last_match(s: Seq<MagicHead>, input: Seq<u8>) -> int
    decreases s.len(),
{
    if s.len() == 0 {
        -1
    } else if spec_xor_matches(s.last(), input) {
        s.len() - 1
    } else {
        spec_last_match(s.drop_last(), input)
    }
}

/// Recovers cached attachment files hidden by a single-byte XOR: a table of
/// known magic heads, kept in ascending byte order, decides the format and
/// the XOR byte.
pub struct XorDecryptor {
    magic_heads: Vec<MagicHead>,
}

/// Compares two byte strings lexicographically.
fn bytes_lt(a: &[u8], b: &[u8]) -> (r: bool)
    ensures
        r == spec_bytes_lt(a@, b@),
{
    let na = a.len();
    let nb = b.len();
    let mut i: usize = 0;
    proof {
        assert(a@.skip(0) =~= a@);
        assert(b@.skip(0) =~= b@);
    }
    while i < na && i < nb
        invariant
            na == a@.len(),
            nb == b@.len(),
            i <= na,
            i <= nb,
            spec_bytes_lt(a@, b@) == spec_bytes_lt(a@.skip(i as int), b@.skip(i as int)),
        decreases na - i,
    {
        proof {
            assert(a@.skip(i as int)[0] == a@[i as int]);
            assert(b@.skip(i as int)[0] == b@[i as int]);
            assert(a@.skip(i as int).drop_first() =~= a@.skip(i as int + 1));
            assert(b@.skip(i as int).drop_first() =~= b@.skip(i as int + 1));
        }
        if a[i] < b[i] {
            return true;
        }
        if a[i] > b[i] {
            return false;
        }
        i = i + 1;
    }
    proof {
        assert(a@.skip(i as int).len() == na - i);
        assert(b@.skip(i as int).len() == nb - i);
    }
    i < nb
}

impl XorDecryptor {
    /// The table of formats, in scan order.
    pub closed spec fn entries(&self) -> Seq<MagicHead> {
        self.magic_heads@
    }

    /// The table is kept strictly ascending by magic bytes, so each magic
    /// occurs once and the scan order is the byte order of the magics.
    pub open spec fn wf(&self) -> bool {
        forall|i: int, j: int|
            0 <= i < j < self.entries().len() ==> spec_bytes_lt(
                (#[trigger] self.entries()[i]).head@,
                (#[trigger] self.entries()[j]).head@,
            )
    }

    /// A decryptor that knows a single format.
    pub fn new(head: &[u8], extension: &str) -> (r: XorDecryptor)
        ensures
            r.wf(),
            spec_assoc(r.entries(), head@) == Some::<Seq<char>>(extension@),
            r.entries().len() == 1,
    {
        let mut r = XorDecryptor { magic_heads: Vec::new() };
        r.add(head, extension);
        r
    }

    /// Records (or replaces) the extension written for files whose leading
    /// bytes match `head`; every other format is left as it was.
    pub fn add(&mut self, head: &[u8], extension: &str)
        requires
            old(self).wf(),
        ensures
            final(self).wf(),
            spec_assoc(final(self).entries(), head@) == Some::<Seq<char>>(extension@),
            forall|h: Seq<u8>|
                h != head@ ==> #[trigger] spec_assoc(final(self).entries(), h) == spec_assoc(
                    old(self).entries(),
                    h,
                ),
            final(self).entries().len() <= old(self).entries().len() + 1,
    {
        let ghost olds = self.magic_heads@;
        let n = self.magic_heads.len();
        let mut i: usize = 0;
        loop
            invariant_except_break
                n == self.magic_heads@.len(),
                self.magic_heads@ == olds,
                i <= n,
                forall|j: int| 0 <= j < i ==> spec_bytes_lt((#[trigger] olds[j]).head@, head@),
            ensures
                n == self.magic_heads@.len(),
                self.magic_heads@ == olds,
                i <= n,
                forall|j: int| 0 <= j < i ==> spec_bytes_lt((#[trigger] olds[j]).head@, head@),
                i < n ==> !spec_bytes_lt(olds[i as int].head@, head@),
            decreases n - i,
        {
            if i >= n {
                break;
            }
            if !bytes_lt(self.magic_heads[i].head.as_slice(), head) {
                break;
            }
            i = i + 1;
        }
        let entry = MagicHead { head: slice_to_vec(head), extension: String::from_str(extension) };
        let replace = i < n && bytes_eq(self.magic_heads[i].head.as_slice(), head);
        if replace {
            self.magic_heads.remove(i);
        }
        let ghost mids = self.magic_heads@;
        self.magic_heads.insert(i, entry);
        proof {
            let news = self.magic_heads@;
            let pre = olds.take(i as int);
            let suf = if replace {
                olds.skip(i as int + 1)
            } else {
                olds.skip(i as int)
            };
            let one = seq![news[i as int]];
            assert(mids =~= pre + suf);
            assert(news =~= pre + (one + suf));
            assert(news[i as int].head@ =~= head@);
            assert(news[i as int].extension@ =~= extension@);
            // the prefix holds strictly smaller magics, so no entry of it is `head`
            assert forall|j: int| 0 <= j < pre.len() implies (#[trigger] pre[j].head@)
                != head@ by {
                lemma_bytes_lt_irrefl(head@);
            };
            lemma_assoc_none(pre, head@);
            lemma_assoc_concat(pre, one + suf, head@);
            assert((one + suf)[0] == news[i as int]);
            assert(spec_assoc(one + suf, head@) == Some(news[i as int].extension@));
            assert(spec_assoc(news, head@) == Some(extension@));
            // every other key reads as before
            assert forall|h: Seq<u8>| h != head@ implies #[trigger] spec_assoc(news, h)
                == spec_assoc(olds, h) by {
                lemma_assoc_concat(pre, one + suf, h);
                lemma_assoc_concat(pre, suf, h);
                assert((one + suf)[0] == news[i as int]);
                assert((one + suf).drop_first() =~= suf);
                assert(spec_assoc(one + suf, h) == spec_assoc(suf, h));
                if replace {
                    let mid = seq![olds[i as int]] + suf;
                    assert(olds =~= pre + mid);
                    lemma_assoc_concat(pre, mid, h);
                    assert(mid[0] == olds[i as int]);
                    assert(mid.drop_first() =~= suf);
                    assert(spec_assoc(mid, h) == spec_assoc(suf, h));
                } else {
                    assert(olds =~= pre + suf);
                }
            };
            // the new table is still strictly sorted
            if i < n && !replace {
                lemma_bytes_lt_total(olds[i as int].head@, head@);
                assert(spec_bytes_lt(head@, olds[i as int].head@));
            }
            assert forall|p: int, q: int|
                0 <= p < q < news.len() implies spec_bytes_lt(
                (#[trigger] news[p]).head@,
                (#[trigger] news[q]).head@,
            ) by {
                let shift: int = if replace {
                    1
                } else {
                    0
                };
                if p < i {
                    assert(news[p] == olds[p]);
                }
                if q < i {
                    assert(news[q] == olds[q]);
                }
                if p > i {
                    assert(news[p] == olds[p - 1 + shift]);
                }
                if q > i {
                    assert(news[q] == olds[q - 1 + shift]);
                }
                if p < i && q == i {
                    assert(spec_bytes_lt(olds[p].head@, head@));
                } else if p == i && q > i {
                    if replace {
                        assert(olds[i as int].head@ == head@);
                        assert(spec_bytes_lt(olds[i as int].head@, olds[q - 1 + shift].head@));
                    } else {
                        if q - 1 == i {
                            assert(spec_bytes_lt(head@, olds[i as int].head@));
                        } else {
                            assert(spec_bytes_lt(olds[i as int].head@, olds[q - 1].head@));
                            lemma_bytes_lt_trans(
                                head@,
                                olds[i as int].head@,
                                olds[q - 1].head@,
                            );
                        }
                    }
                } else if p < i && q > i {
                    if replace {
                        assert(spec_bytes_lt(olds[p].head@, olds[q - 1 + shift].head@));
                    } else {
                        if q - 1 == i {
                            lemma_bytes_lt_trans(olds[p].head@, head@, olds[i as int].head@);
                        } else {
                            assert(spec_bytes_lt(olds[p].head@, olds[q - 1].head@));
                        }
                    }
                }
            };
        }
    }

    /// Recognises the format of an obfuscated file and undoes the XOR.
    ///
    /// The last entry, in magic-byte order, whose first two magic bytes agree
    /// with the file's first two bytes up to one constant XOR byte decides
    /// the extension and that byte; the whole file is XORed with it.  A file
    /// shorter than two bytes, no matching entry, or an entry with an empty
    /// extension yields an empty extension and no bytes.
    pub fn decrypt_bytes(&self, input: &[u8]) -> (r: (&str, Vec<u8>))
        ensures
            ({
                let m = spec_last_match(self.entries(), input@);
                &&& input@.len() < 2 ==> r.0@ == Seq::<char>::empty() && r.1@ == Seq::<u8>::empty()
                &&& input@.len() >= 2 && m == -1 ==> r.0@ == Seq::<char>::empty() && r.1@
                    == Seq::<u8>::empty()
                &&& input@.len() >= 2 && m >= 0 && self.entries()[m].extension@.len() == 0
                    ==> r.0@ == Seq::<char>::empty() && r.1@ == Seq::<u8>::empty()
                &&& input@.len() >= 2 && m >= 0 && self.entries()[m].extension@.len() > 0 ==> (
                r.0@ == self.entries()[m].extension@ && r.1@ == input@.map_values(
                    |x: u8| x ^ (self.entries()[m].head@[0] ^ input@[0]),
                ))
            }),
    {
        proof {
            reveal_strlit("");
            assert(""@ =~= Seq::<char>::empty());
        }
        if input.len() < 2 {
            return ("", Vec::new());
        }
        let n = self.magic_heads.len();
        let mut found = false;
        let mut best: usize = 0;
        let mut i: usize = 0;
        proof {
            assert(self.magic_heads@.take(0) =~= Seq::<MagicHead>::empty());
        }
        while i < n
            invariant
                n == self.magic_heads@.len(),
                i <= n,
                input@.len() >= 2,
                !found ==> spec_last_match(self.magic_heads@.take(i as int), input@) == -1,
                found ==> best < i && spec_last_match(self.magic_heads@.take(i as int), input@)
                    == best,
                found ==> spec_xor_matches(self.magic_heads@[best as int], input@),
            decreases n - i,
        {
            proof {
                assert(self.magic_heads@.take(i as int + 1).drop_last() =~= self.magic_heads@.take(
                    i as int,
                ));
                assert(self.magic_heads@.take(i as int + 1).last() == self.magic_heads@[i as int]);
            }
            let e = &self.magic_heads[i];
            if e.head.len() >= 2 {
                let p0 = e.head[0] ^ input[0];
                let p1 = e.head[1] ^ input[1];
                if p0 == p1 {
                    found = true;
                    best = i;
                }
            }
            i = i + 1;
        }
        proof {
            assert(self.magic_heads@.take(n as int) =~= self.magic_heads@);
        }
        if !found {
            return ("", Vec::new());
        }
        let chosen = &self.magic_heads[best];
        if chosen.extension.as_str().unicode_len() == 0 {
            proof {
                assert(chosen.extension@ =~= Seq::<char>::empty());
            }
            return ("", Vec::new());
        }
        let secret = chosen.head[0] ^ input[0];
        let mut out: Vec<u8> = Vec::new();
        let mut k: usize = 0;
        while k < input.len()
            invariant
                k <= input@.len(),
                out@.len() == k,
                forall|j: int| 0 <= j < k ==> out@[j] == (input@[j] ^ secret),
            decreases input@.len() - k,
        {
            out.push(input[k] ^ secret);
            k = k + 1;
        }
        proof {
            assert(out@ =~= input@.map_values(
                |x: u8| x ^ (self.magic_heads@[best as int].head@[0] ^ input@[0]),
            ));
        }
        (chosen.extension.as_str(), out)
    }
}

impl Default for XorDecryptor {
    /// The table of formats the cache is known to hold: the common raster
    /// image formats, each under its usual extension.
    fn default() -> (r: XorDecryptor)
        ensures
            r.wf(),
            r.entries().len() <= 12,
    {
        let mut r = XorDecryptor { magic_heads: Vec::new() };
        r.add(&[0xFF, 0xD8, 0xFF], "jpg");
        r.add(&[0x89, 0x50, 0x4E, 0x47, 0x0D, 0x0A, 0x1A, 0x0A], "png");
        r.add(&[0x47, 0x49, 0x46, 0x38, 0x39, 0x61], "gif");
        r.add(&[0x42, 0x4D], "bmp");
        r.add(&[0x0A, 0x05, 0x01, 0x08], "pcx");
        r.add(&[0x49, 0x49, 0x2A, 0x00], "tif");
        r.add(&[0x4D, 0x4D, 0x00, 0x2A], "tiff");
        r.add(&[0x46, 0x4F, 0x52, 0x4D], "iff");
        r.add(&[0x52, 0x49, 0x46, 0x46], "ani");
        r.add(&[0x00, 0x00, 0x02, 0x00, 0x00], "tga");
        r.add(&[0x00, 0x00, 0x01, 0x00, 0x01, 0x00, 0x20, 0x20], "ico");
        r.add(&[0x00, 0x00, 0x02, 0x00, 0x01, 0x00, 0x20, 0x20], "cur");
        r
    }
}

} // verus!
