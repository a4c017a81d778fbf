//! Market titles: UTF-8 text packed eight bytes to a word, little-endian,
//! with the last word zero-padded.
use vstd::prelude::*;
use vstd::utf8::{valid_utf8, decode_utf8, encode_utf8, encode_utf8_decode_utf8, encode_utf8_valid_utf8};
use vstd::string::StringSliceAdditionalSpecFns;
use vstd::arithmetic::div_mod::lemma_fundamental_div_mod_converse;
use crate::market::MarketData;

verus! {

/// `256^n`.
pub open spec fn pow256(n: nat) -> int
    decreases n,
{
    if n == 0 {
        1
    } else {
        256 * pow256((n - 1) as nat)
    }
}

/// The little-endian value of up to eight bytes.
pub open spec fn pack_chunk(c: Seq<u8>) -> int
    decreases c.len(),
{
    if c.len() == 0 {
        0
    } else {
        c[0] + 256 * pack_chunk(c.drop_first())
    }
}

/// Bytes `8w .. 8w + 8` of `b`, cut at its end.
pub open spec fn chunk(b: Seq<u8>, w: int) -> Seq<u8> {
    b.subrange(8 * w, if 8 * w + 8 <= b.len() { 8 * w + 8 } else { b.len() as int })
}

/// The words of `b`: one per eight bytes, the last one padded with zeros.
pub open spec fn pack_words(b: Seq<u8>) -> Seq<u64> {
    Seq::new(((b.len() + 7) / 8) as nat, |w: int| pack_chunk(chunk(b, w)) as u64)
}

/// The low `n` bytes of `w`, least significant first.
pub open spec fn word_bytes(w: u64, n: nat) -> Seq<u8>
    decreases n,
{
    if n == 0 {
        seq![]
    } else {
        seq![(w % 256) as u8] + word_bytes(w / 256, (n - 1) as nat)
    }
}

/// The bytes of `s` before its first zero byte.
pub open spec fn take_until_zero(s: Seq<u8>) -> Seq<u8>
    decreases s.len(),
{
    if s.len() == 0 || s[0] == 0 {
        seq![]
    } else {
        seq![s[0]] + take_until_zero(s.drop_first())
    }
}

/// The bytes of a title: from each word, its bytes up to the first zero.
pub open spec fn unpack_words(ws: Seq<u64>) -> Seq<u8>
    decreases ws.len(),
{
    if ws.len() == 0 {
        seq![]
    } else {
        unpack_words(ws.drop_last()) + take_until_zero(word_bytes(ws.last(), 8))
    }
}

pub open spec fn has_no_zero(b: Seq<u8>) -> bool {
    forall|i: int| 0 <= i < b.len() ==> b[i] != 0
}

/// Relies on `String::from_utf8_lossy`: bytes that are valid UTF-8 come back
/// as the text they encode.
#[verifier::external_body]
fn string_from_utf8_lossy(bytes: &[u8]) -> (r: String)
    ensures
        valid_utf8(bytes@) ==> r@ == decode_utf8(bytes@),
{
    String::from_utf8_lossy(bytes).into_owned()
}

proof fn lemma_pack_chunk_bound(c: Seq<u8>)
    ensures
        0 <= pack_chunk(c) < pow256(c.len()),
    decreases c.len(),
{
    if c.len() > 0 {
        lemma_pack_chunk_bound(c.drop_first());
        let r = pack_chunk(c.drop_first());
        let p = pow256((c.len() - 1) as nat);
        assert(c[0] + 256 * r < 256 * p) by (nonlinear_arith)
            requires 0 <= c[0] < 256, 0 <= r < p;
    }
}

proof fn lemma_pow256_8()
    ensures
        pow256(8) == 0x1_0000_0000_0000_0000,
{
    reveal_with_fuel(pow256, 9);
}

proof fn lemma_zero_word_bytes(n: nat)
    ensures
        word_bytes(0, n) == Seq::new(n, |i: int| 0u8),
    decreases n,
{
    if n > 0 {
        lemma_zero_word_bytes((n - 1) as nat);
        assert(word_bytes(0, n) =~= Seq::new(n, |i: int| 0u8));
    }
}

/// The bytes of a packed chunk are the chunk followed by zeros.
proof fn lemma_chunk_bytes(c: Seq<u8>, n: nat)
    requires
        c.len() <= n,
        pack_chunk(c) < 0x1_0000_0000_0000_0000,
    ensures
        word_bytes(pack_chunk(c) as u64, n) == c + Seq::new((n - c.len()) as nat, |i: int| 0u8),
    decreases n,
{
    lemma_pack_chunk_bound(c);
    if n == 0 {
        assert(c =~= seq![]);
        assert(c + Seq::new(0, |i: int| 0u8) =~= seq![]);
    } else if c.len() == 0 {
        lemma_zero_word_bytes(n);
        assert(c + Seq::new(n, |i: int| 0u8) =~= Seq::new(n, |i: int| 0u8));
    } else {
        let rest = c.drop_first();
        let v = pack_chunk(c);
        lemma_pack_chunk_bound(rest);
        lemma_fundamental_div_mod_converse(v, 256, pack_chunk(rest), c[0] as int);
        lemma_chunk_bytes(rest, (n - 1) as nat);
        assert(c + Seq::new((n - c.len()) as nat, |i: int| 0u8) =~= seq![c[0]] + (rest
            + Seq::new(((n - 1) - rest.len()) as nat, |i: int| 0u8)));
    }
}

proof fn lemma_take_until_zero_padded(c: Seq<u8>, z: nat)
    requires
        has_no_zero(c),
    ensures
        take_until_zero(c + Seq::new(z, |i: int| 0u8)) == c,
    decreases c.len(),
{
    let s = c + Seq::new(z, |i: int| 0u8);
    if c.len() == 0 {
        assert(s.len() == 0 || s[0] == 0);
        assert(c =~= seq![]);
    } else {
        assert(s.drop_first() =~= c.drop_first() + Seq::new(z, |i: int| 0u8));
        lemma_take_until_zero_padded(c.drop_first(), z);
        assert(c =~= seq![c[0]] + c.drop_first());
    }
}

/// Packing bytes without a zero byte into words and reading them back gives
/// the bytes again.
pub proof fn lemma_unpack_pack(b: Seq<u8>)
    requires
        has_no_zero(b),
    ensures
        unpack_words(pack_words(b)) == b,
    decreases b.len(),
{
    let ws = pack_words(b);
    if b.len() == 0 {
        assert(ws.len() == 0);
    } else {
        let w = ws.len() - 1;
        let front = b.subrange(0, 8 * w);
        let last = chunk(b, w);
        assert(ws.drop_last() =~= pack_words(front)) by {
            assert forall|i: int| 0 <= i < w implies chunk(front, i) =~= chunk(b, i) by {}
        }
        lemma_unpack_pack(front);
        lemma_pack_chunk_bound(last);
        lemma_pow256_8();
        assert(pow256(last.len()) <= pow256(8)) by {
            reveal_with_fuel(pow256, 9);
        }
        lemma_chunk_bytes(last, 8);
        lemma_take_until_zero_padded(last, (8 - last.len()) as nat);
        assert(b =~= front + last);
    }
}

impl MarketData {
    /// The title `s` packed into words.
    pub fn string_to_u64_vec(s: &str) -> (r: Vec<u64>)
        ensures
            r@ == pack_words(s.spec_bytes()),
    {
        let bytes = s.as_bytes();
        let ghost b = bytes@;
        let mut result: Vec<u64> = Vec::new();
        let mut start: usize = 0;
        while start < bytes.len()
            invariant
                b == bytes@,
                start <= b.len(),
                result@.len() == (start + 7) / 8,
                start < b.len() ==> start == 8 * result@.len(),
                forall|w: int| 0 <= w < result@.len() ==> result@[w] == pack_chunk(chunk(b, w)) as u64,
            decreases b.len() - start,
        {
            let end: usize = if bytes.len() - start >= 8 {
                start + 8
            } else {
                bytes.len()
            };
            let mut value: u64 = 0;
            let mut j: usize = end;
            proof {
                lemma_pow256_8();
            }
            while j > start
                invariant
                    b == bytes@,
                    start <= j <= end <= b.len(),
                    end - start <= 8,
                    value == pack_chunk(b.subrange(j as int, end as int)),
                    value < pow256((end - j) as nat),
                    pow256(8) == 0x1_0000_0000_0000_0000,
                decreases j - start,
            {
                proof {
                    assert(b.subrange(j - 1, end as int).drop_first() =~= b.subrange(
                        j as int,
                        end as int,
                    ));
                    assert(pow256((end - j) as nat) <= pow256(7)) by {
                        reveal_with_fuel(pow256, 9);
                    }
                    reveal_with_fuel(pow256, 9);
                    let p = pow256((end - j) as nat);
                    assert(value * 256 + bytes[j - 1] < 256 * p) by (nonlinear_arith)
                        requires value < p, 0 <= bytes[j - 1] < 256, value >= 0;
                }
                value = value * 256 + bytes[j - 1] as u64;
                j = j - 1;
            }
            proof {
                let w = start / 8;
                assert(chunk(b, w as int) =~= b.subrange(start as int, end as int));
            }
            result.push(value);
            start = end;
        }
        proof {
            assert(result@ =~= pack_words(b));
        }
        result
    }

    /// The title that `title` holds: from each word its bytes up to the first
    /// zero byte, read as UTF-8.
    pub fn u64_vec_to_string(title: &[u64]) -> (r: String)
        ensures
            valid_utf8(unpack_words(title@)) ==> r@ == decode_utf8(unpack_words(title@)),
    {
        let mut bytes: Vec<u8> = Vec::new();
        let mut k: usize = 0;
        while k < title.len()
            invariant
                k <= title@.len(),
                bytes@ == unpack_words(title@.subrange(0, k as int)),
            decreases title@.len() - k,
        {
            let word = title[k];
            let ghost before = bytes@;
            let mut v: u64 = word;
            let mut i: usize = 0;
            while i < 8
                invariant
                    i <= 8,
                    take_until_zero(word_bytes(word, 8)) == bytes@.subrange(
                        before.len() as int,
                        bytes@.len() as int,
                    ) + take_until_zero(word_bytes(v, (8 - i) as nat)),
                    before.len() <= bytes@.len(),
                    bytes@.subrange(0, before.len() as int) == before,
                ensures
                    take_until_zero(word_bytes(word, 8)) == bytes@.subrange(
                        before.len() as int,
                        bytes@.len() as int,
                    ),
                    before.len() <= bytes@.len(),
                    bytes@.subrange(0, before.len() as int) == before,
                decreases 8 - i,
            {
                let byte = (v % 256) as u8;
                if byte == 0 {
                    proof {
                        assert(take_until_zero(word_bytes(v, (8 - i) as nat)) =~= seq![]);
                        assert(bytes@.subrange(before.len() as int, bytes@.len() as int) + seq![]
                            =~= bytes@.subrange(before.len() as int, bytes@.len() as int));
                    }
                    break;
                }
                let ghost old_bytes = bytes@;
                bytes.push(byte);
                proof {
                    assert(bytes@.subrange(before.len() as int, bytes@.len() as int) =~= old_bytes.subrange(
                        before.len() as int,
                        old_bytes.len() as int,
                    ).push(byte));
                    assert(bytes@.subrange(0, before.len() as int) =~= old_bytes.subrange(0, before.len() as int));
                    let s = word_bytes(v, (8 - i) as nat);
                    assert(s.drop_first() =~= word_bytes(v / 256, (8 - i - 1) as nat));
                }
                v = v / 256;
                i = i + 1;
            }
            proof {
                assert(title@.subrange(0, k + 1).drop_last() =~= title@.subrange(0, k as int));
                assert(title@.subrange(0, k + 1).last() == word);
                assert(bytes@ =~= before + bytes@.subrange(before.len() as int, bytes@.len() as int));
            }
            k = k + 1;
        }
        proof {
            assert(title@.subrange(0, k as int) =~= title@);
        }
        string_from_utf8_lossy(bytes.as_slice())
    }

    /// The title of the market as text.
    pub fn get_title_string(&self) -> (r: String)
        ensures
            valid_utf8(unpack_words(self.title@)) ==> r@ == decode_utf8(unpack_words(self.title@)),
    {
        Self::u64_vec_to_string(self.title.as_slice())
    }
}

/// Encoding a title into words and decoding it again gives the title back,
/// for any text without a NUL character (whose zero byte would end a word
/// early).
pub proof fn lemma_title_round_trip(s: &str)
    requires
        has_no_zero(s.spec_bytes()),
    ensures
        valid_utf8(unpack_words(pack_words(s.spec_bytes()))),
        decode_utf8(unpack_words(pack_words(s.spec_bytes()))) == s@,
{
    lemma_unpack_pack(s.spec_bytes());
    encode_utf8_valid_utf8(s@);
    encode_utf8_decode_utf8(s@);
}

} // verus!
