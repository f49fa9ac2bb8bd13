//! Fork-aware, prunable storage for per-block changes tries, together with
//! the slashing severity tables that share this crate.

mod cache;
mod config;
mod fraction;
pub mod grandpa;
mod header;
mod ids;
pub mod kv;
pub mod laws;
mod misconduct;
mod oracle;
mod pruning;
mod storage;
mod text;

pub use cache::{CacheTransactionOps, ConfigCache, EntryType};
pub use config::{encode_config_signal, ChangesTrieConfiguration};
pub use fraction::Fraction;
pub use header::{extract_changes_trie_root, extract_new_configuration, DigestItem, Header};
pub use ids::{AnchorBlockId, ComplexBlockId, Hash256, Meta};
pub use misconduct::{ContinuousMisconduct, EraMisconduct, Unresponsive};
pub use oracle::HeaderOracle;
pub use pruning::{oldest_non_pruned_trie, pruning_range};
pub use storage::{BlockKey, ClientError, DbChangesTrieStorage, StorageError};
