//! Selection of the block range whose changes tries fall out of the
//! retention window. Digest tries summarise the tries below them, so the
//! window is counted in whole top-level digest intervals: pruning happens
//! only at blocks where a top-level digest is created, and removes one
//! top-level interval each time.

use vstd::prelude::*;
use crate::config::ChangesTrieConfiguration;
use crate::config::{level_climb, sat_pow};

verus! {

/// How many top-level digest intervals to keep for a window of
/// `min_blocks_to_keep` blocks: their count rounded down, but at least one,
/// so that a digest still being built is never pruned.
pub open spec fn max_digest_intervals_to_keep_spec(
    min_blocks_to_keep: u64,
    max_digest_interval: u32,
) -> u64 {
    let k = min_blocks_to_keep / (max_digest_interval as u64);
    if k == 0 {
        1u64
    } else {
        k
    }
}

fn max_digest_intervals_to_keep(min_blocks_to_keep: u64, max_digest_interval: u32) -> (r: u64)
    requires
        1 <= max_digest_interval,
    ensures
        r == max_digest_intervals_to_keep_spec(min_blocks_to_keep, max_digest_interval),
{
    let k = min_blocks_to_keep / (max_digest_interval as u64);
    if k == 0 {
        1
    } else {
        k
    }
}

/// The range of blocks (inclusive on both ends) whose changes tries are
/// pruned when the finalization tip reaches `block`, keeping at least
/// `min_blocks_to_keep` blocks of history, for a configuration active since
/// `zero`. `None` means nothing is pruned: either `block` is not a
/// top-level digest block, or everything still lies inside the window.
pub open spec fn pruning_range_spec(
    cfg: ChangesTrieConfiguration,
    zero: u64,
    min_blocks_to_keep: u64,
    block: u64,
) -> Option<(u64, u64)> {
    let pb = if cfg.is_digest_build_enabled_spec() {
        match cfg.digest_level_at_block_spec(zero, block) {
            Some((level, interval, _step)) => if level == cfg.digest_levels {
                let keep = (max_digest_intervals_to_keep_spec(min_blocks_to_keep, interval) as int)
                    * (interval as int);
                if keep <= u64::MAX as int {
                    Some((interval as u64, keep as u64))
                } else {
                    None
                }
            } else {
                None
            },
            None => None,
        }
    } else {
        Some((1u64, min_blocks_to_keep))
    };
    match pb {
        None => None,
        Some((prune_interval, blocks_to_keep)) => if block >= blocks_to_keep {
            let last = (block - blocks_to_keep) as u64;
            if last >= prune_interval {
                Some((((last - prune_interval) + 1) as u64, last))
            } else {
                None
            }
        } else {
            None
        },
    }
}

/// Compute the pruning range; see [`pruning_range_spec`].
pub fn pruning_range(
    cfg: &ChangesTrieConfiguration,
    zero: u64,
    min_blocks_to_keep: u64,
    block: u64,
) -> (r: Option<(u64, u64)>)
    ensures
        r == pruning_range_spec(*cfg, zero, min_blocks_to_keep, block),
{
    let pb: Option<(u64, u64)> = if cfg.is_digest_build_enabled() {
        match cfg.digest_level_at_block(zero, block) {
            Some((level, interval, _step)) => {
                if level == cfg.digest_levels {
                    proof {
                        lemma_digest_level_interval_positive(*cfg, zero, block);
                    }
                    let k = max_digest_intervals_to_keep(min_blocks_to_keep, interval);
                    if k <= u64::MAX / (interval as u64) {
                        proof {
                            assert((k as int) * (interval as int) <= u64::MAX as int)
                                by (nonlinear_arith)
                                requires
                                    1 <= interval,
                                    k <= (u64::MAX as int) / (interval as int),
                            ;
                        }
                        Some((interval as u64, k * (interval as u64)))
                    } else {
                        proof {
                            assert((k as int) * (interval as int) > u64::MAX as int)
                                by (nonlinear_arith)
                                requires
                                    1 <= interval,
                                    k > (u64::MAX as int) / (interval as int),
                            ;
                        }
                        None
                    }
                } else {
                    None
                }
            },
            None => None,
        }
    } else {
        Some((1u64, min_blocks_to_keep))
    };
    match pb {
        None => None,
        Some((prune_interval, blocks_to_keep)) => {
            if block >= blocks_to_keep {
                let last = block - blocks_to_keep;
                if last >= prune_interval {
                    Some((last - prune_interval + 1, last))
                } else {
                    None
                }
            } else {
                None
            }
        },
    }
}

/// The oldest block whose changes trie is still retained once the
/// finalization tip has reached `best_finalized_block`: one past the last
/// block the tip's most recent top-level digest boundary prunes, or block 1
/// when nothing is pruned yet.
pub open spec fn oldest_non_pruned_trie_spec(
    cfg: ChangesTrieConfiguration,
    zero: u64,
    min_blocks_to_keep: u64,
    best_finalized_block: u64,
) -> u64 {
    let rel = (best_finalized_block - zero) as u64;
    let max_digest_block = (best_finalized_block - rel % (
    cfg.max_digest_interval_spec() as u64)) as u64;
    match pruning_range_spec(cfg, zero, min_blocks_to_keep, max_digest_block) {
        Some((_first, last)) => (last + 1) as u64,
        None => 1u64,
    }
}

/// Compute the oldest retained block; see [`oldest_non_pruned_trie_spec`].
pub fn oldest_non_pruned_trie(
    cfg: &ChangesTrieConfiguration,
    zero: u64,
    min_blocks_to_keep: u64,
    best_finalized_block: u64,
) -> (r: u64)
    requires
        zero <= best_finalized_block,
        1 <= min_blocks_to_keep,
    ensures
        r == oldest_non_pruned_trie_spec(*cfg, zero, min_blocks_to_keep, best_finalized_block),
{
    let max_digest_interval = cfg.max_digest_interval();
    proof {
        if cfg.is_digest_build_enabled_spec() {
            lemma_sat_pow_at_least_one(cfg.digest_interval, cfg.digest_levels);
        }
    }
    let rel = best_finalized_block - zero;
    let m = rel % (max_digest_interval as u64);
    proof {
        assert(m <= rel) by (nonlinear_arith)
            requires
                1 <= max_digest_interval,
                m == (rel as int) % (max_digest_interval as int),
        ;
    }
    let max_digest_block = best_finalized_block - m;
    match pruning_range(cfg, zero, min_blocks_to_keep, max_digest_block) {
        Some(range) => {
            proof {
                lemma_pruning_range_bounds(*cfg, zero, min_blocks_to_keep, max_digest_block);
            }
            range.1 + 1
        },
        None => 1,
    }
}

/// `interval^levels` never saturates below one.
proof fn lemma_sat_pow_at_least_one(interval: u32, levels: u32)
    requires
        2 <= interval,
    ensures
        1 <= sat_pow(interval, levels),
    decreases levels,
{
    if levels > 0 {
        lemma_sat_pow_at_least_one(interval, (levels - 1) as u32);
        assert(1 <= (sat_pow(interval, (levels - 1) as u32) as int) * (interval as int))
            by (nonlinear_arith)
            requires
                1 <= sat_pow(interval, (levels - 1) as u32),
                2 <= interval,
        ;
    }
}

/// Whatever blocks a pruning range selects lie strictly behind the driving
/// block, in order: with at least one block kept, `first <= last < block`.
pub proof fn lemma_pruning_range_bounds(
    cfg: ChangesTrieConfiguration,
    zero: u64,
    min_blocks_to_keep: u64,
    block: u64,
)
    requires
        1 <= min_blocks_to_keep,
    ensures
        match pruning_range_spec(cfg, zero, min_blocks_to_keep, block) {
            Some((first, last)) => first <= last && last < block,
            None => true,
        },
{
    if cfg.is_digest_build_enabled_spec() {
        match cfg.digest_level_at_block_spec(zero, block) {
            Some((level, interval, _step)) => {
                lemma_digest_level_interval_positive(cfg, zero, block);
                if level == cfg.digest_levels {
                    let k = max_digest_intervals_to_keep_spec(min_blocks_to_keep, interval);
                    assert(2 <= (k as int) * (interval as int)) by (nonlinear_arith)
                        requires
                            1 <= k,
                            2 <= interval,
                    ;
                }
            },
            None => {},
        }
    }
}

/// The interval reported by `digest_level_at_block_spec` is at least the
/// configured `digest_interval`, hence at least two.
pub proof fn lemma_digest_level_interval_positive(cfg: ChangesTrieConfiguration, zero: u64, block: u64)
    requires
        cfg.digest_level_at_block_spec(zero, block) is Some,
    ensures
        match cfg.digest_level_at_block_spec(zero, block) {
            Some((_level, interval, _step)) => 2 <= interval,
            None => true,
        },
{
    lemma_level_climb_interval(cfg, (block - zero) as u64, cfg.digest_interval, 1, 1);
}

proof fn lemma_level_climb_interval(
    cfg: ChangesTrieConfiguration,
    rel: u64,
    digest_interval: u32,
    current_level: u32,
    digest_step: u32,
)
    requires
        2 <= digest_interval,
        2 <= cfg.digest_interval,
    ensures
        2 <= level_climb(cfg, rel, digest_interval, current_level, digest_step).1,
    decreases cfg.digest_levels - current_level,
{
    if current_level < cfg.digest_levels {
        let next = (digest_interval as int) * (cfg.digest_interval as int);
        assert(4 <= next) by (nonlinear_arith)
            requires
                2 <= digest_interval,
                2 <= cfg.digest_interval,
                next == (digest_interval as int) * (cfg.digest_interval as int),
        ;
        if next <= u32::MAX && rel % (next as u64) == 0 {
            lemma_level_climb_interval(
                cfg,
                rel,
                next as u32,
                (current_level + 1) as u32,
                digest_interval,
            );
        }
    }
}

} // verus!
