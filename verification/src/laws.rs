//! The laws this storage keeps, stated over the views and spec functions
//! that the public contracts use, and proved once for all inputs.

use vstd::prelude::*;
use crate::config::ChangesTrieConfiguration;
use crate::header::changes_trie_root_of;
use crate::ids::{hash_bytes, lemma_hash_bytes_injective, AnchorBlockId, Hash256};
use crate::kv::{
    kv_apply, lemma_apply_concat, lemma_apply_put_last, lemma_apply_untouched, op_touches, KvOp,
};
use crate::pruning::{max_digest_intervals_to_keep_spec, pruning_range_spec};
use crate::storage::{trie_put_ops, unknown_key_error, walk_back, BlockKey, DbChangesTrieStorage};
use vstd::arithmetic::div_mod::lemma_fundamental_div_mod;

verus! {

/// Law: a committed trie is readable. Once the transaction that `commit`
/// filled is applied to the store, the trie column holds `v` under `k` for
/// every pair `(k, v)` of the committed trie — `k` not being recommitted
/// later in the trie, and nothing after the trie's puts (such as the staged
/// cache entry) writing the trie column.
pub proof fn lemma_committed_nodes_readable(
    m: Map<(u32, Seq<u8>), Seq<u8>>,
    ncols: u32,
    pre: Seq<KvOp>,
    tries_col: u32,
    changes: Seq<(Hash256, Vec<u8>)>,
    tail: Seq<KvOp>,
    i: int,
)
    requires
        tries_col < ncols,
        0 <= i < changes.len(),
        forall|j: int| i < j < changes.len() ==> changes[j].0 != changes[i].0,
        forall|j: int| 0 <= j < tail.len() ==> tail[j].1 != tries_col,
    ensures
        ({
            let stored = kv_apply(m, ncols, pre + trie_put_ops(tries_col, changes) + tail);
            &&& stored.contains_key((tries_col, hash_bytes(changes[i].0)))
            &&& stored[(tries_col, hash_bytes(changes[i].0))] == changes[i].1@
        }),
{
    let puts = trie_put_ops(tries_col, changes);
    let key = (tries_col, hash_bytes(changes[i].0));
    let head = pre + puts.take(i + 1);
    let rest = puts.skip(i + 1) + tail;
    assert(pre + puts + tail =~= head + rest);
    lemma_apply_concat(m, ncols, head, rest);
    assert(head.last() == crate::kv::put_op(tries_col, hash_bytes(changes[i].0), changes[i].1@));
    lemma_apply_put_last(m, ncols, head, tries_col, hash_bytes(changes[i].0), changes[i].1@);
    let m1 = kv_apply(m, ncols, head);
    assert forall|j: int| 0 <= j < rest.len() implies !op_touches(rest[j], key) by {
        if j < puts.skip(i + 1).len() {
            assert(rest[j] == puts[i + 1 + j]);
            assert(changes[i + 1 + j].0 != changes[i].0);
            lemma_hash_bytes_injective(changes[i + 1 + j].0, changes[i].0);
        } else {
            assert(rest[j] == tail[j - puts.skip(i + 1).len()]);
        }
    }
    lemma_apply_untouched(m1, ncols, rest, key);
}

/// Law: a finalized target reads canonically, whatever the anchor. For any
/// two anchors at or above a target `b` at or below the finalized number,
/// the resolved root is the same: the one in the canonical header at `b`.
pub proof fn lemma_finalized_target_is_canonical(
    s: &DbChangesTrieStorage,
    a1: AnchorBlockId,
    a2: AnchorBlockId,
    b: u64,
)
    requires
        b <= s.meta_view().finalized_number,
        b <= a1.number,
        b <= a2.number,
    ensures
        s.root_spec(a1, b) == s.root_spec(a2, b),
        s.root_spec(a1, b) == (match s.lookup_spec(BlockKey::ByNumber(b)) {
            Some(h) => Ok::<Option<Hash256>, crate::storage::StorageError>(
                changes_trie_root_of(h.digest@),
            ),
            None => Err::<Option<Hash256>, crate::storage::StorageError>(
                unknown_key_error(BlockKey::ByNumber(b)),
            ),
        }),
{
}

/// Law: an unfinalized target under a non-canonical anchor is found by
/// walking parent pointers down from the anchor; the root returned is the
/// one recorded in the header the walk reaches.
pub proof fn lemma_side_fork_walks_parents(s: &DbChangesTrieStorage, a: AnchorBlockId, b: u64)
    requires
        s.meta_view().finalized_number < b,
        b <= a.number,
        s.canon_view().contains_key(a.number),
        s.headers_view().contains_key(s.canon_view()[a.number]),
        s.headers_view()[s.canon_view()[a.number]].hash != a.hash,
    ensures
        s.root_spec(a, b) == (match walk_back(s.headers_view(), a.hash, a.number, b) {
            Ok(target) => match s.lookup_spec(BlockKey::ByHash(target)) {
                Some(h) => Ok::<Option<Hash256>, crate::storage::StorageError>(
                    changes_trie_root_of(h.digest@),
                ),
                None => Err::<Option<Hash256>, crate::storage::StorageError>(
                    unknown_key_error(BlockKey::ByHash(target)),
                ),
            },
            Err(missing) => Err::<Option<Hash256>, crate::storage::StorageError>(
                crate::storage::StorageError::UnknownBlockHash { hash: missing },
            ),
        }),
{
}

/// Law: without digests, pruning driven by tip `f` under a window of `k`
/// blocks prunes exactly the one block `f - k`, once the chain is longer
/// than the window.
pub proof fn lemma_flat_prune_window(cfg: ChangesTrieConfiguration, k: u64, f: u64)
    requires
        !cfg.is_digest_build_enabled_spec(),
        1 <= k,
    ensures
        pruning_range_spec(cfg, 0, k, f) == (if f >= k + 1 {
            Some(((f - k) as u64, (f - k) as u64))
        } else {
            None::<(u64, u64)>
        }),
{
}

/// A removal staged anywhere among deletes leaves its key absent: deletes
/// never put a key back.
proof fn lemma_apply_all_deletes(
    m: Map<(u32, Seq<u8>), Seq<u8>>,
    ncols: u32,
    ops: Seq<KvOp>,
    col: u32,
    key: Seq<u8>,
)
    requires
        col < ncols,
        forall|j: int| 0 <= j < ops.len() ==> (#[trigger] ops[j]).0 == 1,
        ops.contains(crate::kv::delete_op(col, key)),
    ensures
        !kv_apply(m, ncols, ops).contains_key((col, key)),
    decreases ops.len(),
{
    let i = choose|i: int| 0 <= i < ops.len() && ops[i] == crate::kv::delete_op(col, key);
    if i == ops.len() - 1 {
    } else {
        assert forall|j: int| 0 <= j < ops.drop_last().len() implies (#[trigger] ops.drop_last()[j]).0
            == 1 by {
            assert(ops.drop_last()[j] == ops[j]);
        }
        assert(ops.drop_last()[i] == ops[i]);
        assert(ops.drop_last().contains(crate::kv::delete_op(col, key)));
        lemma_apply_all_deletes(m, ncols, ops.drop_last(), col, key);
        assert((ops.last()).0 == 1);
    }
}

/// Every operation pruning stages for one block height is a removal in the
/// trie column.
proof fn lemma_block_delete_ops_all_deletes(s: &DbChangesTrieStorage, anchor: AnchorBlockId, b: u64)
    ensures
        forall|j: int|
            0 <= j < s.block_delete_ops(anchor, b).len() ==> (#[trigger] s.block_delete_ops(
                anchor,
                b,
            )[j]).0 == 1,
{
    assert forall|j: int| 0 <= j < s.block_delete_ops(anchor, b).len() implies (
    #[trigger] s.block_delete_ops(anchor, b)[j]).0 == 1 by {
        match s.resolve_block_key_spec(anchor, b) {
            Ok(bk) => match s.lookup_spec(bk) {
                Some(h) => {
                    if changes_trie_root_of(h.digest@) is Some && s.node_index_view().contains_key(
                        h.hash,
                    ) {
                        let keys = s.node_index_view()[h.hash];
                        assert(crate::storage::delete_ops_of(s.tries_column(), keys)[j]
                            == crate::kv::delete_op(s.tries_column(), hash_bytes(keys[j])));
                    }
                },
                None => {},
            },
            Err(_) => {},
        }
    }
}

/// Every operation pruning stages over a whole range is a removal.
proof fn lemma_prune_ops_all_deletes(
    s: &DbChangesTrieStorage,
    anchor: AnchorBlockId,
    first: u64,
    count: nat,
)
    ensures
        forall|j: int|
            0 <= j < s.prune_ops(anchor, first, count).len() ==> (#[trigger] s.prune_ops(
                anchor,
                first,
                count,
            )[j]).0 == 1,
    decreases count,
{
    if count > 0 {
        lemma_block_delete_ops_all_deletes(s, anchor, first);
        lemma_prune_ops_all_deletes(s, anchor, (first + 1) as u64, (count - 1) as nat);
        let block = s.block_delete_ops(anchor, first);
        let rest = s.prune_ops(anchor, (first + 1) as u64, (count - 1) as nat);
        assert forall|j: int| 0 <= j < s.prune_ops(anchor, first, count).len() implies (
        #[trigger] s.prune_ops(anchor, first, count)[j]).0 == 1 by {
            if j < block.len() {
                assert(s.prune_ops(anchor, first, count)[j] == block[j]);
            } else {
                assert(s.prune_ops(anchor, first, count)[j] == rest[j - block.len()]);
            }
        }
    }
}

/// An operation staged for a block inside the range is staged by the range.
proof fn lemma_prune_ops_contains_block_op(
    s: &DbChangesTrieStorage,
    anchor: AnchorBlockId,
    first: u64,
    count: nat,
    b: u64,
    op: KvOp,
)
    requires
        first <= b,
        b - first < count,
        first + count <= u64::MAX,
        s.block_delete_ops(anchor, b).contains(op),
    ensures
        s.prune_ops(anchor, first, count).contains(op),
    decreases count,
{
    let block = s.block_delete_ops(anchor, first);
    let rest = s.prune_ops(anchor, (first + 1) as u64, (count - 1) as nat);
    if b == first {
        let i = choose|i: int| 0 <= i < block.len() && block[i] == op;
        assert(s.prune_ops(anchor, first, count)[i] == op);
    } else {
        lemma_prune_ops_contains_block_op(s, anchor, (first + 1) as u64, (count - 1) as nat, b, op);
        let i = choose|i: int| 0 <= i < rest.len() && rest[i] == op;
        assert(s.prune_ops(anchor, first, count)[block.len() + i] == op);
    }
}

/// Law: pruning removes a pruned block's whole trie. For any block height
/// `b` inside the pruned range whose target resolves, whose header records
/// a root, and whose trie's node keys are indexed, applying the staged
/// deletes leaves each of those nodes — the root among them — absent from
/// the trie column.
pub proof fn lemma_pruned_nodes_unreadable(
    s: &DbChangesTrieStorage,
    m: Map<(u32, Seq<u8>), Seq<u8>>,
    anchor: AnchorBlockId,
    first: u64,
    count: nat,
    b: u64,
    node: Hash256,
)
    requires
        s.well_formed(),
        first <= b,
        b - first < count,
        first + count <= u64::MAX,
        match s.resolve_block_key_spec(anchor, b) {
            Ok(bk) => match s.lookup_spec(bk) {
                Some(h) => changes_trie_root_of(h.digest@) is Some
                    && s.node_index_view().contains_key(h.hash) && s.node_index_view()[
                    h.hash].contains(node),
                None => false,
            },
            Err(_) => false,
        },
    ensures
        !kv_apply(m, s.columns(), s.prune_ops(anchor, first, count)).contains_key(
            (s.tries_column(), hash_bytes(node)),
        ),
{
    match s.resolve_block_key_spec(anchor, b) {
        Ok(bk) => match s.lookup_spec(bk) {
            Some(h) => {
                let keys = s.node_index_view()[h.hash];
                let i = choose|i: int| 0 <= i < keys.len() && keys[i] == node;
                assert(s.block_delete_ops(anchor, b)[i] == crate::kv::delete_op(
                    s.tries_column(),
                    hash_bytes(node),
                ));
                assert(s.block_delete_ops(anchor, b).contains(
                    crate::kv::delete_op(s.tries_column(), hash_bytes(node)),
                ));
            },
            None => {},
        },
        Err(_) => {},
    }
    lemma_prune_ops_contains_block_op(
        s,
        anchor,
        first,
        count,
        b,
        crate::kv::delete_op(s.tries_column(), hash_bytes(node)),
    );
    lemma_prune_ops_all_deletes(s, anchor, first, count);
    lemma_apply_all_deletes(
        m,
        s.columns(),
        s.prune_ops(anchor, first, count),
        s.tries_column(),
        hash_bytes(node),
    );
}

/// Law: with digests, pruning at a top-level digest block `f` whose
/// top-level interval divides the window `k` prunes exactly the one
/// top-level interval ending at `f - k` — every pruned block lies more
/// than `k` blocks behind the tip, and blocks within the window stay.
pub proof fn lemma_digest_prune_window(cfg: ChangesTrieConfiguration, k: u64, f: u64)
    requires
        cfg.is_digest_build_enabled_spec(),
        match cfg.digest_level_at_block_spec(0, f) {
            Some((level, interval, _step)) => level == cfg.digest_levels && interval as u64 <= k
                && k % (interval as u64) == 0,
            None => false,
        },
    ensures
        match cfg.digest_level_at_block_spec(0, f) {
            Some((_level, interval, _step)) => pruning_range_spec(cfg, 0, k, f) == (if f >= k
                + interval {
                Some(((f - k - interval + 1) as u64, (f - k) as u64))
            } else {
                None::<(u64, u64)>
            }),
            None => true,
        },
{
    match cfg.digest_level_at_block_spec(0, f) {
        Some((_level, interval, _step)) => {
            crate::pruning::lemma_digest_level_interval_positive(cfg, 0, f);
            lemma_fundamental_div_mod(k as int, interval as int);
            assert(k / (interval as u64) >= 1) by (nonlinear_arith)
                requires
                    1 <= interval,
                    interval as u64 <= k,
            ;
            assert((k as int) % (interval as int) == 0);
            assert((k as int) == ((k as int) / (interval as int)) * (interval as int))
                by (nonlinear_arith)
                requires
                    1 <= interval,
                    (k as int) % (interval as int) == 0,
            ;
            assert(max_digest_intervals_to_keep_spec(k, interval) == k / (interval as u64));
            assert(((k / (interval as u64)) as int) * (interval as int) == k as int);
        },
        None => {},
    }
}

} // verus!
