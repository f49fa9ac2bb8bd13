//! Block identities and the shared finalization record.

use vstd::prelude::*;

verus! {

/// A 256-bit block or trie-node hash, as four 64-bit words.
#[derive(PartialEq, Eq, Structural, Clone, Copy, Debug)]
pub struct Hash256 {
    pub w0: u64,
    pub w1: u64,
    pub w2: u64,
    pub w3: u64,
}

/// The big-endian bytes of `w`, most significant first.
pub open spec fn word_bytes(w: u64) -> Seq<u8> {
    seq![
        (w >> 56) as u8,
        (w >> 48) as u8,
        (w >> 40) as u8,
        (w >> 32) as u8,
        (w >> 24) as u8,
        (w >> 16) as u8,
        (w >> 8) as u8,
        w as u8,
    ]
}

/// The 32 bytes of a hash, word by word, each big-endian.
pub open spec fn hash_bytes(h: Hash256) -> Seq<u8> {
    word_bytes(h.w0) + word_bytes(h.w1) + word_bytes(h.w2) + word_bytes(h.w3)
}

impl Hash256 {
    /// A hash whose low word is `n` and whose other words are zero;
    /// convenient for building distinct identities.
    pub fn from_low(n: u64) -> (r: Hash256)
        ensures
            r == (Hash256 { w0: 0, w1: 0, w2: 0, w3: n }),
    {
        Hash256 { w0: 0, w1: 0, w2: 0, w3: n }
    }

    /// The hash as its 32 key bytes, for use as a store key.
    pub fn to_bytes(&self) -> (r: Vec<u8>)
        ensures
            r@ == hash_bytes(*self),
    {
        let mut out: Vec<u8> = Vec::new();
        push_word_bytes(&mut out, self.w0);
        push_word_bytes(&mut out, self.w1);
        push_word_bytes(&mut out, self.w2);
        push_word_bytes(&mut out, self.w3);
        proof {
            assert(out@ =~= hash_bytes(*self));
        }
        out
    }
}

fn push_word_bytes(out: &mut Vec<u8>, w: u64)
    ensures
        final(out)@ == old(out)@ + word_bytes(w),
{
    out.push((w >> 56) as u8);
    out.push((w >> 48) as u8);
    out.push((w >> 40) as u8);
    out.push((w >> 32) as u8);
    out.push((w >> 24) as u8);
    out.push((w >> 16) as u8);
    out.push((w >> 8) as u8);
    out.push(w as u8);
    proof {
        assert(out@ =~= old(out)@ + word_bytes(w));
    }
}

proof fn lemma_word_bytes_injective(x: u64, y: u64)
    requires
        word_bytes(x) == word_bytes(y),
    ensures
        x == y,
{
    assert(word_bytes(x)[0] == word_bytes(y)[0]);
    assert(word_bytes(x)[1] == word_bytes(y)[1]);
    assert(word_bytes(x)[2] == word_bytes(y)[2]);
    assert(word_bytes(x)[3] == word_bytes(y)[3]);
    assert(word_bytes(x)[4] == word_bytes(y)[4]);
    assert(word_bytes(x)[5] == word_bytes(y)[5]);
    assert(word_bytes(x)[6] == word_bytes(y)[6]);
    assert(word_bytes(x)[7] == word_bytes(y)[7]);
    assert(x == y) by (bit_vector)
        requires
            (x >> 56) as u8 == (y >> 56) as u8,
            (x >> 48) as u8 == (y >> 48) as u8,
            (x >> 40) as u8 == (y >> 40) as u8,
            (x >> 32) as u8 == (y >> 32) as u8,
            (x >> 24) as u8 == (y >> 24) as u8,
            (x >> 16) as u8 == (y >> 16) as u8,
            (x >> 8) as u8 == (y >> 8) as u8,
            x as u8 == y as u8,
    ;
}

/// Two hashes with the same key bytes are the same hash.
pub proof fn lemma_hash_bytes_injective(a: Hash256, b: Hash256)
    ensures
        hash_bytes(a) == hash_bytes(b) ==> a == b,
{
    if hash_bytes(a) == hash_bytes(b) {
        assert(word_bytes(a.w0) =~= hash_bytes(a).subrange(0, 8));
        assert(word_bytes(a.w1) =~= hash_bytes(a).subrange(8, 16));
        assert(word_bytes(a.w2) =~= hash_bytes(a).subrange(16, 24));
        assert(word_bytes(a.w3) =~= hash_bytes(a).subrange(24, 32));
        assert(word_bytes(b.w0) =~= hash_bytes(b).subrange(0, 8));
        assert(word_bytes(b.w1) =~= hash_bytes(b).subrange(8, 16));
        assert(word_bytes(b.w2) =~= hash_bytes(b).subrange(16, 24));
        assert(word_bytes(b.w3) =~= hash_bytes(b).subrange(24, 32));
        lemma_word_bytes_injective(a.w0, b.w0);
        lemma_word_bytes_injective(a.w1, b.w1);
        lemma_word_bytes_injective(a.w2, b.w2);
        lemma_word_bytes_injective(a.w3, b.w3);
    }
}

/// The pair `(hash, number)` that identifies a block in a tree of forks.
#[derive(PartialEq, Eq, Structural, Clone, Copy, Debug)]
pub struct ComplexBlockId {
    pub hash: Hash256,
    pub number: u64,
}

/// The point of view for a historical root query: a block together with its
/// number. Roots may be asked for at this block or any of its ancestors.
#[derive(PartialEq, Eq, Structural, Clone, Copy, Debug)]
pub struct AnchorBlockId {
    pub hash: Hash256,
    pub number: u64,
}

/// Finalization metadata, updated by the surrounding import pipeline and
/// read by root resolution and pruning.
#[derive(PartialEq, Eq, Structural, Clone, Copy, Debug)]
pub struct Meta {
    pub finalized_hash: Hash256,
    pub finalized_number: u64,
    pub genesis_hash: Hash256,
}

} // verus!
