//! The changes-trie configuration and its digest arithmetic.

use vstd::prelude::*;

verus! {

/// Per-chain changes-trie layout. A `digest_interval` of 0 or 1, or zero
/// `digest_levels`, means a flat layout without digests. Otherwise the trie
/// at a block divisible by `digest_interval^L` (for `L <= digest_levels`)
/// is a level-`L` digest summarising the lower tries of its interval.
#[derive(PartialEq, Eq, Structural, Clone, Copy, Debug)]
pub struct ChangesTrieConfiguration {
    pub digest_interval: u32,
    pub digest_levels: u32,
}

/// `interval^levels`, saturating at `u32::MAX`.
pub open spec fn sat_pow(interval: u32, levels: u32) -> u32
    decreases levels,
{
    if levels == 0 {
        1u32
    } else {
        let p = sat_pow(interval, (levels - 1) as u32);
        if p * interval > u32::MAX {
            u32::MAX
        } else {
            (p * interval) as u32
        }
    }
}

/// One climb of the digest hierarchy: starting from `current_level` with its
/// `digest_interval`, keep stepping up while the next interval still divides
/// `rel` and fits a `u32`. Returns the level reached, its interval, and the
/// interval one level below it.
pub open spec fn level_climb(
    cfg: ChangesTrieConfiguration,
    rel: u64,
    digest_interval: u32,
    current_level: u32,
    digest_step: u32,
) -> (u32, u32, u32)
    decreases cfg.digest_levels - current_level,
{
    if current_level >= cfg.digest_levels {
        (current_level, digest_interval, digest_step)
    } else {
        let next = digest_interval * cfg.digest_interval;
        if next <= u32::MAX && rel % (next as u64) == 0 {
            level_climb(cfg, rel, next as u32, (current_level + 1) as u32, digest_interval)
        } else {
            (current_level, digest_interval, digest_step)
        }
    }
}

impl ChangesTrieConfiguration {
    /// Whether the layout carries digests at all.
    pub open spec fn is_digest_build_enabled_spec(&self) -> bool {
        self.digest_interval > 1 && self.digest_levels > 0
    }

    #[verifier::when_used_as_spec(is_digest_build_enabled_spec)]
    pub fn is_digest_build_enabled(&self) -> (r: bool)
        ensures
            r == self.is_digest_build_enabled_spec(),
    {
        self.digest_interval > 1 && self.digest_levels > 0
    }

    /// Whether a digest (of some level) is built at `block`, for a
    /// configuration active since `zero`.
    pub open spec fn is_digest_build_required_at_block_spec(&self, zero: u64, block: u64) -> bool {
        block > zero && self.is_digest_build_enabled_spec() && (block - zero) as u64
            % (self.digest_interval as u64) == 0
    }

    #[verifier::when_used_as_spec(is_digest_build_required_at_block_spec)]
    pub fn is_digest_build_required_at_block(&self, zero: u64, block: u64) -> (r: bool)
        ensures
            r == self.is_digest_build_required_at_block_spec(zero, block),
    {
        block > zero && self.is_digest_build_enabled() && (block - zero)
            % (self.digest_interval as u64) == 0
    }

    /// The interval covered by the highest digest level, saturating.
    pub open spec fn max_digest_interval_spec(&self) -> u32 {
        if !self.is_digest_build_enabled_spec() {
            1u32
        } else {
            sat_pow(self.digest_interval, self.digest_levels)
        }
    }

    pub fn max_digest_interval(&self) -> (r: u32)
        ensures
            r == self.max_digest_interval_spec(),
    {
        if !self.is_digest_build_enabled() {
            return 1;
        }
        let mut result: u32 = 1;
        let mut level: u32 = 0;
        while level < self.digest_levels
            invariant
                level <= self.digest_levels,
                result == sat_pow(self.digest_interval, level),
            decreases self.digest_levels - level,
        {
            proof {
                assert((result as int) * (self.digest_interval as int) <= 0xffff_fffe_0000_0001)
                    by (nonlinear_arith)
                    requires
                        result <= 0xffff_ffffu32,
                        self.digest_interval <= 0xffff_ffffu32,
                ;
            }
            let wide: u64 = (result as u64) * (self.digest_interval as u64);
            if wide > (u32::MAX as u64) {
                result = u32::MAX;
            } else {
                result = wide as u32;
            }
            level = level + 1;
        }
        result
    }

    /// The digest level built at `block` (with the interval it covers and
    /// the interval one level below), or `None` when no digest is built
    /// there. `zero` is the block the configuration became active at.
    pub open spec fn digest_level_at_block_spec(&self, zero: u64, block: u64) -> Option<
        (u32, u32, u32),
    > {
        if !self.is_digest_build_required_at_block_spec(zero, block) {
            None
        } else {
            Some(level_climb(*self, (block - zero) as u64, self.digest_interval, 1, 1))
        }
    }

    pub fn digest_level_at_block(&self, zero: u64, block: u64) -> (r: Option<(u32, u32, u32)>)
        ensures
            r == self.digest_level_at_block_spec(zero, block),
    {
        if !self.is_digest_build_required_at_block(zero, block) {
            return None;
        }
        let rel: u64 = block - zero;
        let mut digest_interval: u32 = self.digest_interval;
        let mut current_level: u32 = 1;
        let mut digest_step: u32 = 1;
        while current_level < self.digest_levels
            invariant
                1 <= current_level,
                2 <= self.digest_interval,
                2 <= digest_interval,
                self.is_digest_build_required_at_block_spec(zero, block),
                rel == block - zero,
                level_climb(*self, rel, self.digest_interval, 1, 1) == level_climb(
                    *self,
                    rel,
                    digest_interval,
                    current_level,
                    digest_step,
                ),
            decreases self.digest_levels - current_level,
        {
            proof {
                assert((digest_interval as int) * (self.digest_interval as int)
                    <= 0xffff_fffe_0000_0001) by (nonlinear_arith)
                    requires
                        digest_interval <= 0xffff_ffffu32,
                        self.digest_interval <= 0xffff_ffffu32,
                ;
                assert(4 <= (digest_interval as int) * (self.digest_interval as int))
                    by (nonlinear_arith)
                    requires
                        2 <= digest_interval,
                        2 <= self.digest_interval,
                ;
            }
            let wide: u64 = (digest_interval as u64) * (self.digest_interval as u64);
            if wide > (u32::MAX as u64) || rel % wide != 0 {
                proof {
                    assert(level_climb(*self, rel, digest_interval, current_level, digest_step) == (
                        current_level,
                        digest_interval,
                        digest_step,
                    ));
                }
                return Some((current_level, digest_interval, digest_step));
            }
            digest_step = digest_interval;
            digest_interval = wide as u32;
            current_level = current_level + 1;
        }
        Some((current_level, digest_interval, digest_step))
    }
}

/// The staged cache value for a configuration signal: a canonical encoding
/// of `Option<ChangesTrieConfiguration>`. An absent configuration is the one
/// byte 0; a present one is the byte 1 followed by the two fields, each as
/// four little-endian bytes.
pub open spec fn config_signal_bytes(c: Option<ChangesTrieConfiguration>) -> Seq<u8> {
    match c {
        None => seq![0u8],
        Some(cfg) => seq![1u8] + le32_bytes(cfg.digest_interval) + le32_bytes(cfg.digest_levels),
    }
}

/// The four little-endian bytes of `w`.
pub open spec fn le32_bytes(w: u32) -> Seq<u8> {
    seq![w as u8, (w >> 8) as u8, (w >> 16) as u8, (w >> 24) as u8]
}

/// Encode an optional configuration for the cache column.
pub fn encode_config_signal(c: &Option<ChangesTrieConfiguration>) -> (r: Vec<u8>)
    ensures
        r@ == config_signal_bytes(*c),
{
    let mut out: Vec<u8> = Vec::new();
    match c {
        None => {
            out.push(0u8);
            proof {
                assert(out@ =~= config_signal_bytes(*c));
            }
        },
        Some(cfg) => {
            out.push(1u8);
            push_le32(&mut out, cfg.digest_interval);
            push_le32(&mut out, cfg.digest_levels);
            proof {
                assert(out@ =~= config_signal_bytes(*c));
            }
        },
    }
    out
}

fn push_le32(out: &mut Vec<u8>, w: u32)
    ensures
        final(out)@ == old(out)@ + le32_bytes(w),
{
    out.push(w as u8);
    out.push((w >> 8) as u8);
    out.push((w >> 16) as u8);
    out.push((w >> 24) as u8);
    proof {
        assert(out@ =~= old(out)@ + le32_bytes(w));
    }
}

} // verus!
