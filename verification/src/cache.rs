//! The auxiliary configuration cache. Trie writes and the staged cache
//! entry travel in the same transaction; the in-memory view below moves
//! only when the caller reports that the transaction committed, so dropping
//! the staged operations leaves the view untouched.

use vstd::prelude::*;
use crate::ids::{ComplexBlockId, Hash256};

verus! {

/// Whether the block that caused a cache transition was finalized when it
/// was committed.
#[derive(PartialEq, Eq, Structural, Clone, Copy, Debug)]
pub enum EntryType {
    Final,
    NonFinal,
}

/// One staged cache transition: at `block` (a child of `parent`) the
/// changes-trie configuration entry becomes `value`.
pub struct CacheTransactionOps {
    pub parent: ComplexBlockId,
    pub block: ComplexBlockId,
    pub value: Vec<u8>,
    pub entry_type: EntryType,
}

spec fn entries_map(s: Seq<(Hash256, Vec<u8>)>) -> Map<Hash256, Seq<u8>>
    decreases s.len(),
{
    if s.len() == 0 {
        Map::empty()
    } else {
        entries_map(s.drop_last()).insert(s.last().0, s.last().1@)
    }
}

/// The in-memory view of the configuration cache: the encoded configuration
/// entry installed at each block that carried a signal.
pub struct ConfigCache {
    entries: Vec<(Hash256, Vec<u8>)>,
}

impl ConfigCache {
    /// The installed entries, by the hash of the block that installed them.
    pub closed spec fn contents(&self) -> Map<Hash256, Seq<u8>> {
        entries_map(self.entries@)
    }

    pub fn new() -> (r: ConfigCache)
        ensures
            r.contents() == Map::<Hash256, Seq<u8>>::empty(),
    {
        ConfigCache { entries: Vec::new() }
    }

    /// Install a staged transition; called only once its transaction has
    /// durably committed.
    pub fn commit(&mut self, ops: CacheTransactionOps)
        ensures
            final(self).contents() == old(self).contents().insert(ops.block.hash, ops.value@),
    {
        let hash = ops.block.hash;
        self.entries.push((hash, ops.value));
        proof {
            assert(self.entries@.drop_last() =~= old(self).entries@);
        }
    }

    /// The entry installed at the block with this hash, if any.
    pub fn get(&self, hash: &Hash256) -> (r: Option<&Vec<u8>>)
        ensures
            match r {
                Some(v) => self.contents().contains_key(*hash) && v@ == self.contents()[*hash],
                None => !self.contents().contains_key(*hash),
            },
    {
        let mut i: usize = self.entries.len();
        proof {
            assert(self.entries@.take(i as int) =~= self.entries@);
        }
        while i > 0
            invariant
                i <= self.entries@.len(),
                entries_map(self.entries@).contains_key(*hash) == entries_map(
                    self.entries@.take(i as int),
                ).contains_key(*hash),
                entries_map(self.entries@).contains_key(*hash) ==> entries_map(
                    self.entries@.take(i as int),
                )[*hash] == entries_map(self.entries@)[*hash],
            decreases i,
        {
            i = i - 1;
            proof {
                assert(self.entries@.take(i as int + 1).drop_last() =~= self.entries@.take(i as int));
                assert(self.entries@.take(i as int + 1).last() == self.entries@[i as int]);
            }
            if self.entries[i].0 == *hash {
                return Some(&self.entries[i].1);
            }
        }
        proof {
            assert(self.entries@.take(0) =~= Seq::<(Hash256, Vec<u8>)>::empty());
        }
        None
    }
}

} // verus!
