//! The changes-trie storage engine: persists trie nodes, resolves roots
//! relative to an anchor across forks, prunes history behind the retention
//! window, and stages cache updates atomically with trie writes.

use vstd::prelude::*;
use crate::cache::{CacheTransactionOps, ConfigCache, EntryType};
use crate::config::{config_signal_bytes, encode_config_signal, ChangesTrieConfiguration};
use crate::header::{changes_trie_root_of, extract_changes_trie_root, Header};
use crate::ids::{hash_bytes, AnchorBlockId, ComplexBlockId, Hash256, Meta};
use crate::kv::{
    delete_op, kv_apply, kv_get, kv_map, kv_num_cols, kv_write, no_ops, put_op, tx_delete, tx_ops,
    tx_put, KvOp,
};
use crate::oracle::HeaderOracle;
use crate::text::{dec_chars, hex_chars, push_decimal, push_hex, string_push_str};
use crate::pruning::{
    lemma_pruning_range_bounds, oldest_non_pruned_trie, oldest_non_pruned_trie_spec, pruning_range,
    pruning_range_spec,
};

verus! {

/// How root resolution will address the target block: by its canonical
/// number, or by the hash found walking parent pointers.
#[derive(PartialEq, Eq, Structural, Clone, Copy, Debug)]
pub enum BlockKey {
    ByNumber(u64),
    ByHash(Hash256),
}

/// Errors of the read path (root resolution, anchors, node reads).
#[derive(PartialEq, Eq, Structural, Clone, Copy, Debug)]
pub enum StorageError {
    /// The target lies above the anchor: anchors bound the past, never the
    /// future.
    FutureAnchor { block: u64, anchor: u64 },
    /// No canonical header is known at this height.
    UnknownBlockNumber { number: u64 },
    /// No header is known with this hash.
    UnknownBlockHash { hash: Hash256 },
}

/// The stable, human-readable message of a read-path error.
pub open spec fn message_chars(e: StorageError) -> Seq<char> {
    match e {
        StorageError::FutureAnchor { block, anchor } => "Can't get changes trie root at "@
            + dec_chars(block as int) + " using anchor at "@ + dec_chars(anchor as int),
        StorageError::UnknownBlockNumber { number } => "Unknown header at number "@ + dec_chars(
            number as int,
        ),
        StorageError::UnknownBlockHash { hash } => "Unknown header: 0x"@ + hex_chars(hash.w0)
            + hex_chars(hash.w1) + hex_chars(hash.w2) + hex_chars(hash.w3),
    }
}

impl StorageError {
    /// Render the error for the string-typed read path.
    pub fn message(&self) -> (r: String)
        ensures
            r@ == message_chars(*self),
    {
        let mut s = String::new();
        match self {
            StorageError::FutureAnchor { block, anchor } => {
                string_push_str(&mut s, "Can't get changes trie root at ");
                push_decimal(&mut s, *block);
                string_push_str(&mut s, " using anchor at ");
                push_decimal(&mut s, *anchor);
            },
            StorageError::UnknownBlockNumber { number } => {
                string_push_str(&mut s, "Unknown header at number ");
                push_decimal(&mut s, *number);
            },
            StorageError::UnknownBlockHash { hash } => {
                string_push_str(&mut s, "Unknown header: 0x");
                push_hex(&mut s, hash.w0);
                push_hex(&mut s, hash.w1);
                push_hex(&mut s, hash.w2);
                push_hex(&mut s, hash.w3);
            },
        }
        proof {
            assert(s@ =~= message_chars(*self));
        }
        s
    }
}

/// Errors of the commit and prune path.
#[derive(PartialEq, Eq, Structural, Clone, Copy, Debug)]
pub enum ClientError {
    Backend,
    UnknownBlock,
    Consensus,
}

/// The hash reached from `hash` (a block at height `from`) after walking
/// `from - to` parent pointers, or the first hash on the way whose header
/// is unknown.
pub open spec fn walk_back(
    by_hash: Map<Hash256, Header>,
    hash: Hash256,
    from: u64,
    to: u64,
) -> Result<Hash256, Hash256>
    decreases from - to,
{
    if from <= to {
        Ok(hash)
    } else if by_hash.contains_key(hash) {
        walk_back(by_hash, by_hash[hash].parent_hash, (from - 1) as u64, to)
    } else {
        Err(hash)
    }
}

/// The error reported when the header a block key names is missing.
pub open spec fn unknown_key_error(key: BlockKey) -> StorageError {
    match key {
        BlockKey::ByNumber(n) => StorageError::UnknownBlockNumber { number: n },
        BlockKey::ByHash(h) => StorageError::UnknownBlockHash { hash: h },
    }
}

/// The puts staged for a committed trie: one per node, in order.
pub open spec fn trie_put_ops(col: u32, changes: Seq<(Hash256, Vec<u8>)>) -> Seq<KvOp> {
    Seq::new(changes.len(), |i: int| put_op(col, hash_bytes(changes[i].0), changes[i].1@))
}

/// The node keys of a committed trie, in order.
pub open spec fn trie_node_keys(changes: Seq<(Hash256, Vec<u8>)>) -> Seq<Hash256> {
    Seq::new(changes.len(), |i: int| changes[i].0)
}

/// The deletes staged for a pruned trie: one per node key, in order.
pub open spec fn delete_ops_of(col: u32, keys: Seq<Hash256>) -> Seq<KvOp> {
    Seq::new(keys.len(), |i: int| delete_op(col, hash_bytes(keys[i])))
}

spec fn index_map(s: Seq<(Hash256, Vec<Hash256>)>) -> Map<Hash256, Seq<Hash256>>
    decreases s.len(),
{
    if s.len() == 0 {
        Map::empty()
    } else {
        index_map(s.drop_last()).insert(s.last().0, s.last().1@)
    }
}

/// Fork-aware, prunable storage for per-block changes tries.
#[allow(dead_code)]
pub struct DbChangesTrieStorage {
    db: kvdb_memorydb::InMemory,
    changes_tries_column: u32,
    key_lookup_column: u32,
    header_column: u32,
    cache_column: u32,
    meta: Meta,
    min_blocks_to_keep: Option<u32>,
    cache: ConfigCache,
    oracle: HeaderOracle,
    node_index: Vec<(Hash256, Vec<Hash256>)>,
}

impl DbChangesTrieStorage {
    /// All known headers, by hash.
    pub closed spec fn headers_view(&self) -> Map<Hash256, Header> {
        self.oracle.by_hash()
    }

    /// The canonical hash at each indexed height.
    pub closed spec fn canon_view(&self) -> Map<u64, Hash256> {
        self.oracle.canonical_index()
    }

    /// The finalization record.
    pub closed spec fn meta_view(&self) -> Meta {
        self.meta
    }

    /// The retention policy: `None` keeps everything, `Some(k)` keeps at
    /// least `k` blocks of history.
    pub closed spec fn retention(&self) -> Option<u32> {
        self.min_blocks_to_keep
    }

    /// The in-memory cache view.
    pub closed spec fn cache_view(&self) -> Map<Hash256, Seq<u8>> {
        self.cache.contents()
    }

    /// The node keys committed for each block, by block hash; kept so that
    /// pruning can delete a block's whole trie without decoding node blobs.
    pub closed spec fn node_index_view(&self) -> Map<Hash256, Seq<Hash256>> {
        index_map(self.node_index@)
    }

    /// The whole store's contents.
    pub closed spec fn stored(&self) -> Map<(u32, Seq<u8>), Seq<u8>> {
        kv_map(self.db)
    }

    /// The column holding trie nodes.
    pub closed spec fn tries_column(&self) -> u32 {
        self.changes_tries_column
    }

    /// The column holding cache entries.
    pub closed spec fn cache_col(&self) -> u32 {
        self.cache_column
    }

    /// How many columns the store has.
    pub closed spec fn columns(&self) -> u32 {
        kv_num_cols(self.db)
    }

    /// The engine's columns exist, and a bounded retention keeps at least
    /// one block.
    pub open spec fn well_formed(&self) -> bool {
        &&& self.tries_column() < self.columns()
        &&& self.cache_col() < self.columns()
        &&& match self.retention() {
            Some(k) => 1 <= k,
            None => true,
        }
    }

    /// The stored node bytes under a trie-node hash, if present.
    pub open spec fn node_at(&self, key: Hash256) -> Option<Seq<u8>> {
        if self.stored().contains_key((self.tries_column(), hash_bytes(key))) {
            Some(self.stored()[(self.tries_column(), hash_bytes(key))])
        } else {
            None
        }
    }

    /// Create the engine over a store and its column layout. The key-lookup
    /// and header columns are recorded for the layout's sake; headers are
    /// served from the in-memory oracle.
    pub fn new(
        db: kvdb_memorydb::InMemory,
        changes_tries_column: u32,
        key_lookup_column: u32,
        header_column: u32,
        cache_column: u32,
        meta: Meta,
        min_blocks_to_keep: Option<u32>,
    ) -> (r: DbChangesTrieStorage)
        requires
            changes_tries_column < kv_num_cols(db),
            cache_column < kv_num_cols(db),
            match min_blocks_to_keep {
                Some(k) => 1 <= k,
                None => true,
            },
        ensures
            r.well_formed(),
            r.meta_view() == meta,
            r.retention() == min_blocks_to_keep,
            r.headers_view() == Map::<Hash256, Header>::empty(),
            r.canon_view() == Map::<u64, Hash256>::empty(),
            r.cache_view() == Map::<Hash256, Seq<u8>>::empty(),
            r.node_index_view() == Map::<Hash256, Seq<Hash256>>::empty(),
            r.stored() == kv_map(db),
            r.tries_column() == changes_tries_column,
            r.cache_col() == cache_column,
            r.columns() == kv_num_cols(db),
    {
        DbChangesTrieStorage {
            db,
            changes_tries_column,
            key_lookup_column,
            header_column,
            cache_column,
            meta,
            min_blocks_to_keep,
            cache: ConfigCache::new(),
            oracle: HeaderOracle::new(),
            node_index: Vec::new(),
        }
    }

    /// Record a header, making it canonical at its height. The import
    /// pipeline calls this as blocks arrive.
    pub fn insert_header(&mut self, header: Header)
        ensures
            final(self).headers_view() == old(self).headers_view().insert(header.hash, header),
            final(self).canon_view() == old(self).canon_view().insert(header.number, header.hash),
            final(self).meta_view() == old(self).meta_view(),
            final(self).retention() == old(self).retention(),
            final(self).cache_view() == old(self).cache_view(),
            final(self).node_index_view() == old(self).node_index_view(),
            final(self).stored() == old(self).stored(),
            final(self).tries_column() == old(self).tries_column(),
            final(self).cache_col() == old(self).cache_col(),
            final(self).columns() == old(self).columns(),
    {
        self.oracle.insert(header);
    }

    /// Advance (or, in tests, overwrite) the finalized block number.
    pub fn set_finalized_number(&mut self, number: u64)
        ensures
            final(self).meta_view() == (Meta {
                finalized_hash: old(self).meta_view().finalized_hash,
                finalized_number: number,
                genesis_hash: old(self).meta_view().genesis_hash,
            }),
            final(self).headers_view() == old(self).headers_view(),
            final(self).canon_view() == old(self).canon_view(),
            final(self).retention() == old(self).retention(),
            final(self).cache_view() == old(self).cache_view(),
            final(self).node_index_view() == old(self).node_index_view(),
            final(self).stored() == old(self).stored(),
            final(self).tries_column() == old(self).tries_column(),
            final(self).cache_col() == old(self).cache_col(),
            final(self).columns() == old(self).columns(),
    {
        self.meta.finalized_number = number;
    }

    /// Change the retention policy.
    pub fn set_min_blocks_to_keep(&mut self, min_blocks_to_keep: Option<u32>)
        requires
            match min_blocks_to_keep {
                Some(k) => 1 <= k,
                None => true,
            },
        ensures
            final(self).retention() == min_blocks_to_keep,
            final(self).meta_view() == old(self).meta_view(),
            final(self).headers_view() == old(self).headers_view(),
            final(self).canon_view() == old(self).canon_view(),
            final(self).cache_view() == old(self).cache_view(),
            final(self).node_index_view() == old(self).node_index_view(),
            final(self).stored() == old(self).stored(),
            final(self).tries_column() == old(self).tries_column(),
            final(self).cache_col() == old(self).cache_col(),
            final(self).columns() == old(self).columns(),
            old(self).well_formed() ==> final(self).well_formed(),
    {
        self.min_blocks_to_keep = min_blocks_to_keep;
    }

    /// Apply a transaction to the store. The engine itself never calls
    /// this: the caller owns the transaction and commits it, so that trie
    /// writes, cache writes and whatever else the caller staged land
    /// atomically or not at all.
    pub fn write_transaction(&mut self, tx: kvdb::DBTransaction)
        ensures
            final(self).stored() == kv_apply(old(self).stored(), old(self).columns(), tx_ops(tx)),
            final(self).meta_view() == old(self).meta_view(),
            final(self).headers_view() == old(self).headers_view(),
            final(self).canon_view() == old(self).canon_view(),
            final(self).retention() == old(self).retention(),
            final(self).cache_view() == old(self).cache_view(),
            final(self).node_index_view() == old(self).node_index_view(),
            final(self).tries_column() == old(self).tries_column(),
            final(self).cache_col() == old(self).cache_col(),
            final(self).columns() == old(self).columns(),
    {
        kv_write(&mut self.db, tx);
    }

    /// Which block a root query addresses: the canonical block at the
    /// target height when the target is finalized or the anchor itself is
    /// canonical, else the hash found by walking parent pointers down from
    /// the anchor.
    pub open spec fn resolve_block_key_spec(&self, anchor: AnchorBlockId, block: u64) -> Result<
        BlockKey,
        StorageError,
    > {
        if block > anchor.number {
            Err(StorageError::FutureAnchor { block, anchor: anchor.number })
        } else if block <= self.meta_view().finalized_number {
            Ok(BlockKey::ByNumber(block))
        } else if !self.canon_view().contains_key(anchor.number) || !self.headers_view().contains_key(
            self.canon_view()[anchor.number],
        ) {
            Err(StorageError::UnknownBlockNumber { number: anchor.number })
        } else if self.headers_view()[self.canon_view()[anchor.number]].hash == anchor.hash {
            Ok(BlockKey::ByNumber(block))
        } else {
            match walk_back(self.headers_view(), anchor.hash, anchor.number, block) {
                Ok(h) => Ok(BlockKey::ByHash(h)),
                Err(h) => Err(StorageError::UnknownBlockHash { hash: h }),
            }
        }
    }

    /// The header a block key names, if known.
    pub open spec fn lookup_spec(&self, key: BlockKey) -> Option<Header> {
        match key {
            BlockKey::ByNumber(n) => if self.canon_view().contains_key(n)
                && self.headers_view().contains_key(self.canon_view()[n]) {
                Some(self.headers_view()[self.canon_view()[n]])
            } else {
                None
            },
            BlockKey::ByHash(h) => if self.headers_view().contains_key(h) {
                Some(self.headers_view()[h])
            } else {
                None
            },
        }
    }

    /// What `root` returns: the changes-trie root recorded in the header of
    /// the resolved target block.
    pub open spec fn root_spec(&self, anchor: AnchorBlockId, block: u64) -> Result<
        Option<Hash256>,
        StorageError,
    > {
        match self.resolve_block_key_spec(anchor, block) {
            Err(e) => Err(e),
            Ok(k) => match self.lookup_spec(k) {
                Some(h) => Ok(changes_trie_root_of(h.digest@)),
                None => Err(unknown_key_error(k)),
            },
        }
    }

    #[verifier::loop_isolation(false)]
    fn resolve_block_key(&self, anchor: &AnchorBlockId, block: u64) -> (r: Result<
        BlockKey,
        StorageError,
    >)
        ensures
            r == self.resolve_block_key_spec(*anchor, block),
    {
        if block > anchor.number {
            return Err(StorageError::FutureAnchor { block, anchor: anchor.number });
        }
        if block <= self.meta.finalized_number {
            return Ok(BlockKey::ByNumber(block));
        }
        let anchor_header = match self.oracle.header_by_number(anchor.number) {
            Some(h) => h,
            None => {
                return Err(StorageError::UnknownBlockNumber { number: anchor.number });
            },
        };
        if anchor_header.hash == anchor.hash {
            return Ok(BlockKey::ByNumber(block));
        }
        let mut current_hash = anchor.hash;
        let mut current_num = anchor.number;
        while current_num != block
            invariant
                block <= current_num,
                walk_back(self.headers_view(), anchor.hash, anchor.number, block) == walk_back(
                    self.headers_view(),
                    current_hash,
                    current_num,
                    block,
                ),
            decreases current_num - block,
        {
            match self.oracle.header_by_hash(&current_hash) {
                Some(h) => {
                    current_hash = h.parent_hash;
                    current_num = current_num - 1;
                },
                None => {
                    return Err(StorageError::UnknownBlockHash { hash: current_hash });
                },
            }
        }
        Ok(BlockKey::ByHash(current_hash))
    }

    fn lookup_header(&self, key: &BlockKey) -> (r: Option<&Header>)
        ensures
            match r {
                Some(h) => self.lookup_spec(*key) == Some(*h),
                None => self.lookup_spec(*key) is None,
            },
    {
        match key {
            BlockKey::ByNumber(n) => self.oracle.header_by_number(*n),
            BlockKey::ByHash(h) => self.oracle.header_by_hash(h),
        }
    }

    /// The changes-trie root at height `block`, seen from `anchor`. The
    /// target must not lie above the anchor. A finalized target is read
    /// from the canonical index; an unfinalized one is read canonically
    /// when the anchor itself is canonical, and found by parent-pointer
    /// traversal otherwise.
    pub fn root(&self, anchor: &AnchorBlockId, block: u64) -> (r: Result<
        Option<Hash256>,
        StorageError,
    >)
        ensures
            r == self.root_spec(*anchor, block),
            block > anchor.number <==> r == Err::<Option<Hash256>, StorageError>(
                StorageError::FutureAnchor { block, anchor: anchor.number },
            ),
    {
        match self.resolve_block_key(anchor, block) {
            Err(e) => Err(e),
            Ok(key) => match self.lookup_header(&key) {
                Some(h) => Ok(extract_changes_trie_root(h)),
                None => Err(unknown_key_error_ex(&key)),
            },
        }
    }

    /// The anchor for a block known by hash: the pair of that hash and the
    /// header's number; unknown hashes are refused.
    pub fn build_anchor(&self, hash: Hash256) -> (r: Result<AnchorBlockId, StorageError>)
        ensures
            r == (if self.headers_view().contains_key(hash) {
                Ok::<AnchorBlockId, StorageError>(
                    AnchorBlockId { hash, number: self.headers_view()[hash].number },
                )
            } else {
                Err::<AnchorBlockId, StorageError>(StorageError::UnknownBlockHash { hash })
            }),
    {
        match self.oracle.header_by_hash(&hash) {
            Some(h) => Ok(AnchorBlockId { hash, number: h.number }),
            None => Err(StorageError::UnknownBlockHash { hash }),
        }
    }

    /// Read a trie node by its content hash. The prefix argument is
    /// accepted for interface symmetry and ignored: nodes are addressed by
    /// the raw hash. Absence is not an error.
    pub fn get(&self, key: &Hash256, _prefix: &[u8]) -> (r: Result<Option<Vec<u8>>, StorageError>)
        requires
            self.well_formed(),
        ensures
            r is Ok,
            match r {
                Ok(v) => match v {
                    Some(bytes) => self.node_at(*key) == Some(bytes@),
                    None => self.node_at(*key) is None,
                },
                Err(_) => false,
            },
    {
        let key_bytes = key.to_bytes();
        Ok(kv_get(&self.db, self.changes_tries_column, key_bytes.as_slice()))
    }

    /// The entry the cache holds for the block with this hash, if any.
    pub fn cached_config(&self, hash: &Hash256) -> (r: Option<&Vec<u8>>)
        ensures
            match r {
                Some(v) => self.cache_view().contains_key(*hash) && v@ == self.cache_view()[*hash],
                None => !self.cache_view().contains_key(*hash),
            },
    {
        self.cache.get(hash)
    }

    /// Install staged cache operations, after the caller has durably
    /// committed the transaction they were staged with.
    pub fn post_commit(&mut self, cache_ops: CacheTransactionOps)
        ensures
            final(self).cache_view() == old(self).cache_view().insert(
                cache_ops.block.hash,
                cache_ops.value@,
            ),
            final(self).meta_view() == old(self).meta_view(),
            final(self).headers_view() == old(self).headers_view(),
            final(self).canon_view() == old(self).canon_view(),
            final(self).retention() == old(self).retention(),
            final(self).node_index_view() == old(self).node_index_view(),
            final(self).stored() == old(self).stored(),
            final(self).tries_column() == old(self).tries_column(),
            final(self).cache_col() == old(self).cache_col(),
            final(self).columns() == old(self).columns(),
    {
        self.cache.commit(cache_ops);
    }

    /// The oldest block whose changes trie is still retained when the best
    /// finalized block is `best_finalized_block`; block 1 under archive
    /// retention. The configuration is taken to be active from the genesis
    /// block, which overstates its reach for chains that enabled it later.
    pub fn oldest_changes_trie_block(
        &self,
        config: &ChangesTrieConfiguration,
        best_finalized_block: u64,
    ) -> (r: u64)
        requires
            self.well_formed(),
        ensures
            r == (match self.retention() {
                Some(k) => oldest_non_pruned_trie_spec(*config, 0, k as u64, best_finalized_block),
                None => 1u64,
            }),
    {
        match self.min_blocks_to_keep {
            Some(k) => oldest_non_pruned_trie(config, 0, k as u64, best_finalized_block),
            None => 1,
        }
    }
}

impl DbChangesTrieStorage {
    /// Stage a freshly built changes trie, consuming it: every node goes
    /// into the trie column of `tx`, and the block's node keys are
    /// remembered for pruning. If the header carried a configuration
    /// signal, the encoded configuration is staged into the cache column of
    /// the same transaction, and the matching in-memory cache transition is
    /// returned for [`Self::post_commit`]; both land atomically with the
    /// trie, or not at all.
    #[verifier::loop_isolation(false)]
    pub fn commit(
        &mut self,
        tx: &mut kvdb::DBTransaction,
        changes_trie: Vec<(Hash256, Vec<u8>)>,
        parent_block: ComplexBlockId,
        block: ComplexBlockId,
        finalized: bool,
        new_configuration: Option<Option<ChangesTrieConfiguration>>,
    ) -> (r: Result<Option<CacheTransactionOps>, ClientError>)
        ensures
            tx_ops(*final(tx)) == tx_ops(*old(tx)) + trie_put_ops(
                old(self).tries_column(),
                changes_trie@,
            ) + (match new_configuration {
                Some(nc) => seq![
                    put_op(old(self).cache_col(), hash_bytes(block.hash), config_signal_bytes(nc)),
                ],
                None => no_ops(),
            }),
            final(self).node_index_view() == old(self).node_index_view().insert(
                block.hash,
                trie_node_keys(changes_trie@),
            ),
            r is Ok,
            match new_configuration {
                Some(nc) => match r {
                    Ok(Some(ops)) => ops.parent == parent_block && ops.block == block
                        && ops.value@ == config_signal_bytes(nc) && ops.entry_type == (
                    if finalized {
                        EntryType::Final
                    } else {
                        EntryType::NonFinal
                    }),
                    _ => false,
                },
                None => match r {
                    Ok(ops) => ops is None,
                    _ => false,
                },
            },
            final(self).meta_view() == old(self).meta_view(),
            final(self).headers_view() == old(self).headers_view(),
            final(self).canon_view() == old(self).canon_view(),
            final(self).retention() == old(self).retention(),
            final(self).cache_view() == old(self).cache_view(),
            final(self).stored() == old(self).stored(),
            final(self).tries_column() == old(self).tries_column(),
            final(self).cache_col() == old(self).cache_col(),
            final(self).columns() == old(self).columns(),
    {
        let n = changes_trie.len();
        let mut node_keys_vec: Vec<Hash256> = Vec::new();
        let mut i: usize = 0;
        proof {
            assert(changes_trie@.take(0) =~= Seq::<(Hash256, Vec<u8>)>::empty());
            assert(trie_put_ops(self.changes_tries_column, changes_trie@.take(0))
                =~= Seq::<KvOp>::empty());
            assert(tx_ops(*tx) =~= tx_ops(*old(tx)) + trie_put_ops(
                self.changes_tries_column,
                changes_trie@.take(0),
            ));
            assert(node_keys_vec@ =~= trie_node_keys(changes_trie@.take(0)));
        }
        while i < n
            invariant
                i <= n,
                tx_ops(*tx) == tx_ops(*old(tx)) + trie_put_ops(
                    self.changes_tries_column,
                    changes_trie@.take(i as int),
                ),
                node_keys_vec@ == trie_node_keys(changes_trie@.take(i as int)),
            decreases n - i,
        {
            let pair = &changes_trie[i];
            let key_hash = pair.0;
            let key_bytes = key_hash.to_bytes();
            tx_put(tx, self.changes_tries_column, key_bytes.as_slice(), pair.1.as_slice());
            node_keys_vec.push(key_hash);
            proof {
                assert(trie_put_ops(self.changes_tries_column, changes_trie@.take(i as int + 1))
                    =~= trie_put_ops(self.changes_tries_column, changes_trie@.take(i as int)).push(
                    put_op(
                        self.changes_tries_column,
                        hash_bytes(changes_trie@[i as int].0),
                        changes_trie@[i as int].1@,
                    ),
                ));
                assert(tx_ops(*tx) =~= tx_ops(*old(tx)) + trie_put_ops(
                    self.changes_tries_column,
                    changes_trie@.take(i as int + 1),
                ));
                assert(node_keys_vec@ =~= trie_node_keys(changes_trie@.take(i as int + 1)));
            }
            i = i + 1;
        }
        proof {
            assert(changes_trie@.take(n as int) =~= changes_trie@);
        }
        self.node_index.push((block.hash, node_keys_vec));
        proof {
            assert(self.node_index@.drop_last() =~= old(self).node_index@);
        }
        match new_configuration {
            Some(nc) => {
                let value = encode_config_signal(&nc);
                let cache_key = block.hash.to_bytes();
                tx_put(tx, self.cache_column, cache_key.as_slice(), value.as_slice());
                proof {
                    assert(tx_ops(*tx) =~= tx_ops(*old(tx)) + trie_put_ops(
                        self.changes_tries_column,
                        changes_trie@,
                    ) + seq![
                        put_op(self.cache_column, hash_bytes(block.hash), config_signal_bytes(nc)),
                    ]);
                }
                Ok(
                    Some(
                        CacheTransactionOps {
                            parent: parent_block,
                            block,
                            value,
                            entry_type: if finalized {
                                EntryType::Final
                            } else {
                                EntryType::NonFinal
                            },
                        },
                    ),
                )
            },
            None => {
                proof {
                    assert(tx_ops(*tx) =~= tx_ops(*old(tx)) + trie_put_ops(
                        self.changes_tries_column,
                        changes_trie@,
                    ) + no_ops());
                }
                Ok(None)
            },
        }
    }

    /// The deletes pruning stages for one block height: the remembered
    /// node keys of the resolved block's trie, provided the block resolves,
    /// its header records a root, and its nodes are indexed; nothing
    /// otherwise.
    pub open spec fn block_delete_ops(&self, anchor: AnchorBlockId, b: u64) -> Seq<KvOp> {
        match self.resolve_block_key_spec(anchor, b) {
            Ok(bk) => match self.lookup_spec(bk) {
                Some(h) => match changes_trie_root_of(h.digest@) {
                    Some(_root) => if self.node_index_view().contains_key(h.hash) {
                        delete_ops_of(self.tries_column(), self.node_index_view()[h.hash])
                    } else {
                        Seq::<KvOp>::empty()
                    },
                    None => Seq::<KvOp>::empty(),
                },
                None => Seq::<KvOp>::empty(),
            },
            Err(_) => Seq::<KvOp>::empty(),
        }
    }

    /// The deletes pruning stages for `count` consecutive block heights
    /// starting at `first`.
    pub open spec fn prune_ops(&self, anchor: AnchorBlockId, first: u64, count: nat) -> Seq<KvOp>
        decreases count,
    {
        if count == 0 {
            Seq::<KvOp>::empty()
        } else {
            self.block_delete_ops(anchor, first) + self.prune_ops(
                anchor,
                (first + 1) as u64,
                (count - 1) as nat,
            )
        }
    }

    fn node_keys(&self, hash: &Hash256) -> (r: Option<&Vec<Hash256>>)
        ensures
            match r {
                Some(v) => self.node_index_view().contains_key(*hash) && v@
                    == self.node_index_view()[*hash],
                None => !self.node_index_view().contains_key(*hash),
            },
    {
        let mut i: usize = self.node_index.len();
        proof {
            assert(self.node_index@.take(i as int) =~= self.node_index@);
        }
        while i > 0
            invariant
                i <= self.node_index@.len(),
                index_map(self.node_index@).contains_key(*hash) == index_map(
                    self.node_index@.take(i as int),
                ).contains_key(*hash),
                index_map(self.node_index@).contains_key(*hash) ==> index_map(
                    self.node_index@.take(i as int),
                )[*hash] == index_map(self.node_index@)[*hash],
            decreases i,
        {
            i = i - 1;
            proof {
                assert(self.node_index@.take(i as int + 1).drop_last() =~= self.node_index@.take(
                    i as int,
                ));
                assert(self.node_index@.take(i as int + 1).last() == self.node_index@[i as int]);
            }
            if self.node_index[i].0 == *hash {
                return Some(&self.node_index[i].1);
            }
        }
        proof {
            assert(self.node_index@.take(0) =~= Seq::<(Hash256, Vec<Hash256>)>::empty());
        }
        None
    }

    /// Stage the deletes for one pruned block height.
    #[verifier::loop_isolation(false)]
    fn prune_block(&self, anchor: &AnchorBlockId, b: u64, tx: &mut kvdb::DBTransaction)
        ensures
            tx_ops(*final(tx)) == tx_ops(*old(tx)) + self.block_delete_ops(*anchor, b),
    {
        let key = match self.resolve_block_key(anchor, b) {
            Ok(k) => k,
            Err(_) => {
                proof {
                    assert(tx_ops(*tx) =~= tx_ops(*tx) + self.block_delete_ops(*anchor, b));
                }
                return ;
            },
        };
        let header = match self.lookup_header(&key) {
            Some(h) => h,
            None => {
                proof {
                    assert(tx_ops(*tx) =~= tx_ops(*tx) + self.block_delete_ops(*anchor, b));
                }
                return ;
            },
        };
        match extract_changes_trie_root(header) {
            Some(_root) => {},
            None => {
                proof {
                    assert(tx_ops(*tx) =~= tx_ops(*tx) + self.block_delete_ops(*anchor, b));
                }
                return ;
            },
        }
        let keys = match self.node_keys(&header.hash) {
            Some(k) => k,
            None => {
                proof {
                    assert(tx_ops(*tx) =~= tx_ops(*tx) + self.block_delete_ops(*anchor, b));
                }
                return ;
            },
        };
        let m = keys.len();
        let mut i: usize = 0;
        proof {
            assert(keys@.take(0) =~= Seq::<Hash256>::empty());
            assert(delete_ops_of(self.changes_tries_column, keys@.take(0))
                =~= Seq::<KvOp>::empty());
            assert(tx_ops(*tx) =~= tx_ops(*old(tx)) + delete_ops_of(
                self.changes_tries_column,
                keys@.take(0),
            ));
        }
        while i < m
            invariant
                i <= m,
                tx_ops(*tx) == tx_ops(*old(tx)) + delete_ops_of(
                    self.changes_tries_column,
                    keys@.take(i as int),
                ),
            decreases m - i,
        {
            let key_hash = keys[i];
            let key_bytes = key_hash.to_bytes();
            tx_delete(tx, self.changes_tries_column, key_bytes.as_slice());
            proof {
                assert(delete_ops_of(self.changes_tries_column, keys@.take(i as int + 1))
                    =~= delete_ops_of(self.changes_tries_column, keys@.take(i as int)).push(
                    delete_op(self.changes_tries_column, hash_bytes(keys@[i as int])),
                ));
                assert(tx_ops(*tx) =~= tx_ops(*old(tx)) + delete_ops_of(
                    self.changes_tries_column,
                    keys@.take(i as int + 1),
                ));
            }
            i = i + 1;
        }
        proof {
            assert(keys@.take(m as int) =~= keys@);
        }
    }

    /// Prune the changes tries that the finalization tip `(block_hash,
    /// block_num)` pushes out of the retention window; a no-op under
    /// archive retention. The staged deletes land only when the caller
    /// commits `tx`. The configuration is taken to be active from the
    /// genesis block, which overstates its reach for chains that enabled it
    /// later; blocks whose root cannot be resolved are skipped.
    #[verifier::loop_isolation(false)]
    pub fn prune(
        &self,
        config: &ChangesTrieConfiguration,
        tx: &mut kvdb::DBTransaction,
        block_hash: Hash256,
        block_num: u64,
    )
        requires
            self.well_formed(),
        ensures
            match self.retention() {
                None => tx_ops(*final(tx)) == tx_ops(*old(tx)),
                Some(k) => match pruning_range_spec(*config, 0, k as u64, block_num) {
                    None => tx_ops(*final(tx)) == tx_ops(*old(tx)),
                    Some((first, last)) => tx_ops(*final(tx)) == tx_ops(*old(tx)) + self.prune_ops(
                        (AnchorBlockId { hash: block_hash, number: block_num }),
                        first,
                        (last - first + 1) as nat,
                    ),
                },
            },
    {
        let min_blocks_to_keep: u32 = match self.min_blocks_to_keep {
            Some(k) => k,
            None => {
                return ;
            },
        };
        let range = match pruning_range(config, 0, min_blocks_to_keep as u64, block_num) {
            Some(range) => range,
            None => {
                return ;
            },
        };
        let first = range.0;
        let last = range.1;
        proof {
            lemma_pruning_range_bounds(*config, 0, min_blocks_to_keep as u64, block_num);
        }
        let anchor = AnchorBlockId { hash: block_hash, number: block_num };
        let mut b = first;
        proof {
            assert(tx_ops(*tx) =~= tx_ops(*old(tx)) + self.prune_ops(anchor, first, 0));
        }
        while b <= last
            invariant
                first <= b,
                b <= last + 1,
                tx_ops(*tx) == tx_ops(*old(tx)) + self.prune_ops(anchor, first, (b - first) as nat),
            decreases last + 1 - b,
        {
            self.prune_block(&anchor, b, tx);
            proof {
                lemma_prune_ops_snoc(self, anchor, first, (b - first) as nat);
                assert(tx_ops(*tx) =~= tx_ops(*old(tx)) + self.prune_ops(
                    anchor,
                    first,
                    (b - first + 1) as nat,
                ));
            }
            b = b + 1;
        }
    }
}

/// Staging one more block height extends the staged deletes at their end.
proof fn lemma_prune_ops_snoc(
    s: &DbChangesTrieStorage,
    anchor: AnchorBlockId,
    first: u64,
    count: nat,
)
    requires
        first + count <= u64::MAX,
    ensures
        s.prune_ops(anchor, first, count + 1) == s.prune_ops(anchor, first, count)
            + s.block_delete_ops(anchor, (first + count) as u64),
    decreases count,
{
    if count == 0 {
        assert(s.prune_ops(anchor, (first + 1) as u64, 0) =~= Seq::<KvOp>::empty());
        assert(s.prune_ops(anchor, first, 0) =~= Seq::<KvOp>::empty());
        assert(s.prune_ops(anchor, first, 1) =~= s.prune_ops(anchor, first, 0)
            + s.block_delete_ops(anchor, first));
    } else {
        lemma_prune_ops_snoc(s, anchor, (first + 1) as u64, (count - 1) as nat);
        assert(s.prune_ops(anchor, first, count + 1) =~= s.prune_ops(anchor, first, count)
            + s.block_delete_ops(anchor, (first + count) as u64));
    }
}

fn unknown_key_error_ex(key: &BlockKey) -> (r: StorageError)
    ensures
        r == unknown_key_error(*key),
{
    match key {
        BlockKey::ByNumber(n) => StorageError::UnknownBlockNumber { number: *n },
        BlockKey::ByHash(h) => StorageError::UnknownBlockHash { hash: *h },
    }
}

} // verus!
