//! Block headers and the digest entries this crate consumes.

use vstd::prelude::*;
use crate::config::ChangesTrieConfiguration;
use crate::ids::Hash256;

verus! {

/// One tagged log entry of a header digest. Only two tags matter to this
/// crate; everything else a header may carry is `Other`.
#[derive(PartialEq, Eq, Structural, Clone, Copy, Debug)]
pub enum DigestItem {
    /// The Merkle root of the block's changes trie.
    ChangesTrieRoot(Hash256),
    /// A changes-trie configuration change taking effect from this block;
    /// `None` is an explicit disable.
    ChangesTrieSignal(Option<ChangesTrieConfiguration>),
    /// A log entry of no interest here.
    Other,
}

/// A block header, reduced to what root resolution reads: its own hash, its
/// parent's, its number, and the digest log.
pub struct Header {
    pub hash: Hash256,
    pub parent_hash: Hash256,
    pub number: u64,
    pub digest: Vec<DigestItem>,
}

/// The first changes-trie root entry of a digest log, if any.
pub open spec fn changes_trie_root_of(digest: Seq<DigestItem>) -> Option<Hash256>
    decreases digest.len(),
{
    if digest.len() == 0 {
        None
    } else {
        match digest[0] {
            DigestItem::ChangesTrieRoot(h) => Some(h),
            _ => changes_trie_root_of(digest.drop_first()),
        }
    }
}

/// The first configuration signal of a digest log, if any. The outer option
/// distinguishes "no signal" from "signal carrying no configuration".
pub open spec fn new_configuration_of(digest: Seq<DigestItem>) -> Option<
    Option<ChangesTrieConfiguration>,
>
    decreases digest.len(),
{
    if digest.len() == 0 {
        None
    } else {
        match digest[0] {
            DigestItem::ChangesTrieSignal(c) => Some(c),
            _ => new_configuration_of(digest.drop_first()),
        }
    }
}

impl Header {
    pub fn new(hash: Hash256, parent_hash: Hash256, number: u64, digest: Vec<DigestItem>) -> (r:
        Header)
        ensures
            r == (Header { hash, parent_hash, number, digest }),
    {
        Header { hash, parent_hash, number, digest }
    }
}

/// Extract the changes-trie root recorded in a header, if any.
pub fn extract_changes_trie_root(header: &Header) -> (r: Option<Hash256>)
    ensures
        r == changes_trie_root_of(header.digest@),
{
    let n = header.digest.len();
    let mut i: usize = 0;
    proof {
        assert(header.digest@.skip(0) =~= header.digest@);
    }
    while i < n
        invariant
            i <= n,
            n == header.digest@.len(),
            changes_trie_root_of(header.digest@) == changes_trie_root_of(header.digest@.skip(
                i as int,
            )),
        decreases n - i,
    {
        let item = &header.digest[i];
        proof {
            assert(header.digest@.skip(i as int)[0] == header.digest@[i as int]);
            assert(header.digest@.skip(i as int).drop_first() =~= header.digest@.skip(i as int + 1));
        }
        match item {
            DigestItem::ChangesTrieRoot(h) => {
                return Some(*h);
            },
            _ => {},
        }
        i = i + 1;
    }
    proof {
        assert(header.digest@.skip(n as int) =~= Seq::<DigestItem>::empty());
    }
    None
}

/// Extract the new changes-trie configuration (if a signal is present at
/// all) from a header.
pub fn extract_new_configuration(header: &Header) -> (r: Option<
    Option<ChangesTrieConfiguration>,
>)
    ensures
        r == new_configuration_of(header.digest@),
{
    let n = header.digest.len();
    let mut i: usize = 0;
    proof {
        assert(header.digest@.skip(0) =~= header.digest@);
    }
    while i < n
        invariant
            i <= n,
            n == header.digest@.len(),
            new_configuration_of(header.digest@) == new_configuration_of(header.digest@.skip(
                i as int,
            )),
        decreases n - i,
    {
        let item = &header.digest[i];
        proof {
            assert(header.digest@.skip(i as int)[0] == header.digest@[i as int]);
            assert(header.digest@.skip(i as int).drop_first() =~= header.digest@.skip(i as int + 1));
        }
        match item {
            DigestItem::ChangesTrieSignal(c) => {
                return Some(*c);
            },
            _ => {},
        }
        i = i + 1;
    }
    proof {
        assert(header.digest@.skip(n as int) =~= Seq::<DigestItem>::empty());
    }
    None
}

} // verus!
