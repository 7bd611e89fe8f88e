//! The Internet one's-complement checksum over 16-bit big-endian words, as
//! IPv4 and TCP headers use it: a specification, a verified implementation,
//! and the lemma that a header carrying the computed checksum validates
//! under the standard receiver check.

use vstd::prelude::*;

verus! {

use vstd::arithmetic::div_mod::lemma_fundamental_div_mod_converse;

/// The plain sum of a sequence of 16-bit words.
pub open spec fn sum16(ws: Seq<u16>) -> int
    decreases ws.len(),
{
    if ws.len() == 0 {
        0
    } else {
        ws[0] + sum16(ws.skip(1))
    }
}

/// One end-around-carry folding step: add the upper half of a sum back into
/// its lower 16 bits.
pub open spec fn fold16(n: int) -> int {
    n % 0x10000 + n / 0x10000
}

/// The big-endian 16-bit words of an even-length byte sequence.
pub open spec fn words_of(bytes: Seq<u8>) -> Seq<u16>
    decreases bytes.len(),
{
    if bytes.len() < 2 {
        Seq::empty()
    } else {
        seq![(bytes[0] * 0x100 + bytes[1]) as u16] + words_of(bytes.skip(2))
    }
}

/// The checksum a sender stores: the one's complement of the folded word
/// sum. Two folding steps suffice for any sum below 2^24.
pub open spec fn checksum_of(ws: Seq<u16>) -> int {
    0xFFFF - fold16(fold16(sum16(ws)))
}

/// The standard receiver check: folding the word sum of the bytes,
/// checksum field included, yields all ones.
pub open spec fn internet_checksum_ok(bytes: Seq<u8>) -> bool {
    &&& bytes.len() % 2 == 0
    &&& fold16(fold16(sum16(words_of(bytes)))) == 0xFFFF
}

/// Appending one word adds exactly that word to the sum.
pub proof fn lemma_sum16_push(ws: Seq<u16>, w: u16)
    ensures
        sum16(ws.push(w)) == sum16(ws) + w,
    decreases ws.len(),
{
    if ws.len() == 0 {
        assert(ws.push(w).skip(1) =~= Seq::<u16>::empty());
        assert(sum16(Seq::<u16>::empty()) == 0);
    } else {
        assert(ws.push(w).skip(1) =~= ws.skip(1).push(w));
        lemma_sum16_push(ws.skip(1), w);
    }
}

/// Replacing one word changes the sum by exactly the difference.
pub proof fn lemma_sum16_update(ws: Seq<u16>, i: int, v: u16)
    requires
        0 <= i < ws.len(),
    ensures
        sum16(ws.update(i, v)) == sum16(ws) - ws[i] + v,
    decreases i,
{
    if i == 0 {
        assert(ws.update(0, v).skip(1) =~= ws.skip(1));
    } else {
        assert(ws.update(i, v).skip(1) =~= ws.skip(1).update(i - 1, v));
        lemma_sum16_update(ws.skip(1), i - 1, v);
    }
}

/// The word sum of n words lies between 0 and n * 0xFFFF.
pub proof fn lemma_sum16_bound(ws: Seq<u16>)
    ensures
        0 <= sum16(ws) <= ws.len() * 0xFFFF,
    decreases ws.len(),
{
    if ws.len() == 0 {
    } else {
        lemma_sum16_bound(ws.skip(1));
        assert(ws.skip(1).len() * 0xFFFF == (ws.len() - 1) * 0xFFFF) by (nonlinear_arith)
            requires ws.len() >= 1 && ws.skip(1).len() == ws.len() - 1;
        assert((ws.len() - 1) * 0xFFFF + 0xFFFF == ws.len() * 0xFFFF) by (nonlinear_arith);
    }
}

/// The length and the contents of the word view of an even-length byte
/// sequence: word j is byte 2j followed by byte 2j + 1.
pub proof fn lemma_words_of(bytes: Seq<u8>)
    requires
        bytes.len() % 2 == 0,
    ensures
        words_of(bytes).len() == bytes.len() / 2,
        forall|j: int|
            0 <= j < bytes.len() / 2 ==> words_of(bytes)[j] == bytes[2 * j] * 0x100 + bytes[2 * j
                + 1],
    decreases bytes.len(),
{
    if bytes.len() < 2 {
    } else {
        lemma_words_of(bytes.skip(2));
        assert forall|j: int| 1 <= j < bytes.len() / 2 implies words_of(bytes)[j] == bytes[2 * j]
            * 0x100 + bytes[2 * j + 1] by {
            assert(words_of(bytes)[j] == words_of(bytes.skip(2))[j - 1]);
            assert(bytes.skip(2)[2 * (j - 1)] == bytes[2 * j]);
            assert(bytes.skip(2)[2 * (j - 1) + 1] == bytes[2 * j + 1]);
        }
    }
}

/// Two folding steps bring any sum below 2^24 into the 16-bit range.
pub proof fn lemma_fold16_range(s: int)
    requires
        0 <= s < 0x1000000,
    ensures
        0 <= fold16(fold16(s)) <= 0xFFFF,
{
    let q = s / 0x10000;
    let r = s % 0x10000;
    let f1 = r + q;
    assert(0 <= q < 0x100);
    if f1 < 0x10000 {
        assert(fold16(s) == f1);
        assert(fold16(f1) == f1);
    } else {
        assert(f1 / 0x10000 == 1 && f1 % 0x10000 == f1 - 0x10000) by {
            lemma_fundamental_div_mod_converse(f1, 0x10000, 1, f1 - 0x10000);
        }
        assert(fold16(f1) == f1 - 0xFFFF);
    }
}

/// The central law of the encoding: storing the one's complement of the
/// folded sum makes the receiver's folded sum come out all ones, for every
/// sum a probe header can produce.
pub proof fn lemma_fold16_complement(s: int)
    requires
        0 <= s < 0x1000000,
    ensures
        fold16(fold16(s + 0xFFFF - fold16(fold16(s)))) == 0xFFFF,
{
    let q = s / 0x10000;
    let r = s % 0x10000;
    assert(0 <= q < 0x100);
    assert(0 <= r < 0x10000);
    assert(s == 0x10000 * q + r);
    let f1 = r + q;
    let f = fold16(fold16(s));
    if f1 < 0x10000 {
        assert(f == f1);
        let c = 0xFFFF - f;
        assert(s + c == 0x10000 * q + (0xFFFF - q));
        assert((s + c) / 0x10000 == q && (s + c) % 0x10000 == 0xFFFF - q) by {
            lemma_fundamental_div_mod_converse(s + c, 0x10000, q, 0xFFFF - q);
        }
        assert(fold16(s + c) == 0xFFFF);
        assert(fold16(0xFFFF) == 0xFFFF);
    } else {
        assert(f1 / 0x10000 == 1 && f1 % 0x10000 == f1 - 0x10000) by {
            lemma_fundamental_div_mod_converse(f1, 0x10000, 1, f1 - 0x10000);
        }
        assert(f == f1 - 0xFFFF);
        let c = 0xFFFF - f;
        assert(s + c == 0x10000 * (q + 1) + (0xFFFE - q));
        assert((s + c) / 0x10000 == q + 1 && (s + c) % 0x10000 == 0xFFFE - q) by {
            lemma_fundamental_div_mod_converse(s + c, 0x10000, q + 1, 0xFFFE - q);
        }
        assert(fold16(s + c) == 0xFFFF);
        assert(fold16(0xFFFF) == 0xFFFF);
    }
}

/// Computes the Internet checksum of an even number of bytes, exactly as
/// `checksum_of` over the big-endian word view specifies it.
pub fn internet_checksum(bytes: &Vec<u8>) -> (r: u16)
    requires
        bytes@.len() % 2 == 0,
        bytes@.len() <= 0x200,
    ensures
        r == checksum_of(words_of(bytes@)),
{
    proof {
        lemma_words_of(bytes@);
    }
    let n = bytes.len();
    let mut acc: u32 = 0;
    let mut i: usize = 0;
    while i < n
        invariant
            bytes@.len() == n,
            n % 2 == 0,
            n <= 0x200,
            i % 2 == 0,
            i <= n,
            acc == sum16(words_of(bytes@).take(i as int / 2)),
            acc <= (i as int / 2) * 0xFFFF,
        decreases n - i,
    {
        let word: u32 = (bytes[i] as u32) * 0x100 + (bytes[i + 1] as u32);
        proof {
            lemma_words_of(bytes@);
            let ws = words_of(bytes@);
            let k = i as int / 2;
            assert(ws.take(k + 1) =~= ws.take(k).push(ws[k]));
            lemma_sum16_push(ws.take(k), ws[k]);
            assert(k * 0xFFFF + 0xFFFF == (k + 1) * 0xFFFF) by (nonlinear_arith);
            assert((k + 1) * 0xFFFF <= 0x100 * 0xFFFF) by (nonlinear_arith)
                requires k + 1 <= 0x100;
        }
        acc = acc + word;
        i = i + 2;
    }
    proof {
        let ws = words_of(bytes@);
        assert(ws.take(n as int / 2) =~= ws);
        lemma_fold16_range(acc as int);
    }
    let s1: u32 = acc % 0x10000 + acc / 0x10000;
    let s2: u32 = s1 % 0x10000 + s1 / 0x10000;
    assert(s1 == fold16(acc as int));
    assert(s2 == fold16(fold16(acc as int)));
    (0xFFFF - s2) as u16
}

} // verus!
