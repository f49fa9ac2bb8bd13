//! In-memory header lookup: headers by hash, and the canonical index from
//! block number to hash. The surrounding import pipeline feeds it; root
//! resolution reads it.

use vstd::prelude::*;
use crate::header::Header;
use crate::ids::Hash256;

verus! {

/// The headers of a sequence, as a map from header hash to header; a later
/// entry with the same hash wins.
spec fn headers_map(s: Seq<Header>) -> Map<Hash256, Header>
    decreases s.len(),
{
    if s.len() == 0 {
        Map::empty()
    } else {
        headers_map(s.drop_last()).insert(s.last().hash, s.last())
    }
}

/// The canonical index of a sequence of `(number, hash)` pairs; a later
/// entry for the same number wins.
spec fn canon_map(s: Seq<(u64, Hash256)>) -> Map<u64, Hash256>
    decreases s.len(),
{
    if s.len() == 0 {
        Map::empty()
    } else {
        canon_map(s.drop_last()).insert(s.last().0, s.last().1)
    }
}

/// Read-only header lookup by hash or by (canonical) number.
pub struct HeaderOracle {
    headers: Vec<Header>,
    canonical: Vec<(u64, Hash256)>,
}

impl HeaderOracle {
    /// All known headers, by their hash.
    pub closed spec fn by_hash(&self) -> Map<Hash256, Header> {
        headers_map(self.headers@)
    }

    /// The canonical hash at each height that has one.
    pub closed spec fn canonical_index(&self) -> Map<u64, Hash256> {
        canon_map(self.canonical@)
    }

    pub fn new() -> (r: HeaderOracle)
        ensures
            r.by_hash() == Map::<Hash256, Header>::empty(),
            r.canonical_index() == Map::<u64, Hash256>::empty(),
    {
        HeaderOracle { headers: Vec::new(), canonical: Vec::new() }
    }

    /// Record a header and make it the canonical block at its height.
    pub fn insert(&mut self, header: Header)
        ensures
            final(self).by_hash() == old(self).by_hash().insert(header.hash, header),
            final(self).canonical_index() == old(self).canonical_index().insert(
                header.number,
                header.hash,
            ),
    {
        let number = header.number;
        let hash = header.hash;
        self.headers.push(header);
        self.canonical.push((number, hash));
        proof {
            assert(self.headers@.drop_last() =~= old(self).headers@);
            assert(self.canonical@.drop_last() =~= old(self).canonical@);
        }
    }

    /// The header whose hash is `hash`, if known.
    pub fn header_by_hash(&self, hash: &Hash256) -> (r: Option<&Header>)
        ensures
            match r {
                Some(h) => self.by_hash().contains_key(*hash) && *h == self.by_hash()[*hash],
                None => !self.by_hash().contains_key(*hash),
            },
    {
        let mut i: usize = self.headers.len();
        proof {
            assert(self.headers@.take(i as int) =~= self.headers@);
        }
        while i > 0
            invariant
                i <= self.headers@.len(),
                headers_map(self.headers@).contains_key(*hash) == headers_map(
                    self.headers@.take(i as int),
                ).contains_key(*hash),
                headers_map(self.headers@).contains_key(*hash) ==> headers_map(
                    self.headers@.take(i as int),
                )[*hash] == headers_map(self.headers@)[*hash],
            decreases i,
        {
            i = i - 1;
            proof {
                assert(self.headers@.take(i as int + 1).drop_last() =~= self.headers@.take(i as int));
                assert(self.headers@.take(i as int + 1).last() == self.headers@[i as int]);
            }
            if self.headers[i].hash == *hash {
                return Some(&self.headers[i]);
            }
        }
        proof {
            assert(self.headers@.take(0) =~= Seq::<Header>::empty());
        }
        None
    }

    /// The canonical hash at height `number`, if one is indexed.
    pub fn canonical_hash(&self, number: u64) -> (r: Option<Hash256>)
        ensures
            match r {
                Some(h) => self.canonical_index().contains_key(number) && h
                    == self.canonical_index()[number],
                None => !self.canonical_index().contains_key(number),
            },
    {
        let mut i: usize = self.canonical.len();
        proof {
            assert(self.canonical@.take(i as int) =~= self.canonical@);
        }
        while i > 0
            invariant
                i <= self.canonical@.len(),
                canon_map(self.canonical@).contains_key(number) == canon_map(
                    self.canonical@.take(i as int),
                ).contains_key(number),
                canon_map(self.canonical@).contains_key(number) ==> canon_map(
                    self.canonical@.take(i as int),
                )[number] == canon_map(self.canonical@)[number],
            decreases i,
        {
            i = i - 1;
            proof {
                assert(self.canonical@.take(i as int + 1).drop_last() =~= self.canonical@.take(
                    i as int,
                ));
                assert(self.canonical@.take(i as int + 1).last() == self.canonical@[i as int]);
            }
            if self.canonical[i].0 == number {
                return Some(self.canonical[i].1);
            }
        }
        proof {
            assert(self.canonical@.take(0) =~= Seq::<(u64, Hash256)>::empty());
        }
        None
    }

    /// The canonical header at height `number`, if indexed and known.
    pub fn header_by_number(&self, number: u64) -> (r: Option<&Header>)
        ensures
            match r {
                Some(h) => {
                    &&& self.canonical_index().contains_key(number)
                    &&& self.by_hash().contains_key(self.canonical_index()[number])
                    &&& *h == self.by_hash()[self.canonical_index()[number]]
                },
                None => !self.canonical_index().contains_key(number) || !self.by_hash().contains_key(
                    self.canonical_index()[number],
                ),
            },
    {
        match self.canonical_hash(number) {
            Some(hash) => self.header_by_hash(&hash),
            None => None,
        }
    }
}

} // verus!
