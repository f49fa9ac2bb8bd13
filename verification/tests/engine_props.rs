use changes_tries::kv::{kv_create, tx_new};
use changes_tries::{
    encode_config_signal, extract_changes_trie_root, extract_new_configuration, AnchorBlockId,
    ChangesTrieConfiguration, ComplexBlockId, DbChangesTrieStorage, DigestItem, Hash256, Header,
    Meta, StorageError,
};

fn h(n: u64) -> Hash256 {
    Hash256::from_low(n)
}

fn make_storage(min_blocks_to_keep: Option<u32>) -> DbChangesTrieStorage {
    let db = kv_create(4);
    let meta = Meta { finalized_hash: h(0), finalized_number: 0, genesis_hash: h(0) };
    DbChangesTrieStorage::new(db, 0, 1, 2, 3, meta, min_blocks_to_keep)
}

#[test]
fn future_anchor_is_an_error() {
    let storage = make_storage(None);
    let anchor = AnchorBlockId { hash: h(4), number: 4 };
    let err = storage.root(&anchor, 5).unwrap_err();
    assert_eq!(err, StorageError::FutureAnchor { block: 5, anchor: 4 });
    let message = err.message();
    assert!(message.contains("Can't get changes trie root at 5"));
    assert_eq!(message, "Can't get changes trie root at 5 using anchor at 4");
}

#[test]
fn unknown_canonical_header_is_an_error() {
    let storage = make_storage(None);
    // target above the finalized number, anchor height never indexed
    let anchor = AnchorBlockId { hash: h(9), number: 5 };
    assert_eq!(
        storage.root(&anchor, 3),
        Err(StorageError::UnknownBlockNumber { number: 5 })
    );
}

#[test]
fn unknown_header_on_traversal_is_an_error() {
    let mut storage = make_storage(None);
    // a canonical header exists at height 4, but the anchor names a fork
    // whose headers were never inserted
    let canonical = Header::new(h(40), h(30), 4, vec![]);
    storage.insert_header(canonical);
    let anchor = AnchorBlockId { hash: h(41), number: 4 };
    assert_eq!(
        storage.root(&anchor, 3),
        Err(StorageError::UnknownBlockHash { hash: h(41) })
    );
}

#[test]
fn build_anchor_finds_known_headers_only() {
    let mut storage = make_storage(None);
    storage.insert_header(Header::new(h(7), h(6), 7, vec![]));
    assert_eq!(
        storage.build_anchor(h(7)),
        Ok(AnchorBlockId { hash: h(7), number: 7 })
    );
    let err = storage.build_anchor(h(8)).unwrap_err();
    assert_eq!(err, StorageError::UnknownBlockHash { hash: h(8) });
    assert_eq!(
        err.message(),
        format!("Unknown header: 0x{:064x}", 8u64)
    );
}

#[test]
fn commit_with_configuration_change_is_atomic() {
    let mut storage = make_storage(None);
    let block = ComplexBlockId { hash: h(11), number: 1 };
    let parent = ComplexBlockId { hash: h(10), number: 0 };
    let new_config = Some(ChangesTrieConfiguration { digest_interval: 4, digest_levels: 1 });
    let trie = vec![
        (h(101), b"node_a".to_vec()),
        (h(102), b"node_b".to_vec()),
        (h(103), b"node_c".to_vec()),
    ];

    let mut tx = tx_new();
    let ops = storage
        .commit(&mut tx, trie, parent, block, true, Some(new_config))
        .unwrap()
        .expect("a configuration change stages cache ops");

    // before post_commit the cache view is unchanged
    assert!(storage.cached_config(&h(11)).is_none());

    storage.write_transaction(tx);
    assert!(storage.cached_config(&h(11)).is_none());

    // after the durable commit, post_commit installs the view
    storage.post_commit(ops);
    let expected = encode_config_signal(&new_config);
    assert_eq!(storage.cached_config(&h(11)), Some(&expected));

    // the committed nodes are all readable
    assert_eq!(storage.get(&h(101), &[]), Ok(Some(b"node_a".to_vec())));
    assert_eq!(storage.get(&h(102), &[]), Ok(Some(b"node_b".to_vec())));
    assert_eq!(storage.get(&h(103), &[]), Ok(Some(b"node_c".to_vec())));
}

#[test]
fn dropped_cache_ops_leave_the_cache_unchanged() {
    let mut storage = make_storage(None);
    let block = ComplexBlockId { hash: h(21), number: 1 };
    let parent = ComplexBlockId { hash: h(20), number: 0 };
    let mut tx = tx_new();
    let ops = storage
        .commit(&mut tx, vec![(h(201), b"n".to_vec())], parent, block, false, Some(None))
        .unwrap();
    assert!(ops.is_some());
    // the transaction failed: tx and ops are both dropped
    drop(tx);
    drop(ops);
    assert!(storage.cached_config(&h(21)).is_none());
    // and the node was never written
    assert_eq!(storage.get(&h(201), &[]), Ok(None));
}

#[test]
fn commit_without_signal_stages_no_cache_ops() {
    let mut storage = make_storage(None);
    let block = ComplexBlockId { hash: h(31), number: 1 };
    let parent = ComplexBlockId { hash: h(30), number: 0 };
    let mut tx = tx_new();
    let ops = storage
        .commit(&mut tx, vec![(h(301), b"n".to_vec())], parent, block, false, None)
        .unwrap();
    assert!(ops.is_none());
}

#[test]
fn archive_prune_is_a_noop() {
    let mut storage = make_storage(None);
    let block = ComplexBlockId { hash: h(11), number: 1 };
    let parent = ComplexBlockId { hash: h(10), number: 0 };
    let mut tx = tx_new();
    storage
        .commit(&mut tx, vec![(h(101), b"node".to_vec())], parent, block, false, None)
        .unwrap();
    storage.write_transaction(tx);

    let config = ChangesTrieConfiguration { digest_interval: 2, digest_levels: 1 };
    let mut tx = tx_new();
    storage.prune(&config, &mut tx, h(99), 1000);
    storage.write_transaction(tx);
    assert_eq!(storage.get(&h(101), &[]), Ok(Some(b"node".to_vec())));
}

#[test]
fn oldest_changes_trie_block_values() {
    let digest_config = ChangesTrieConfiguration { digest_interval: 2, digest_levels: 2 };
    let flat_config = ChangesTrieConfiguration { digest_interval: 0, digest_levels: 0 };

    let archive = make_storage(None);
    assert_eq!(archive.oldest_changes_trie_block(&digest_config, 100), 1);

    let keep8 = make_storage(Some(8));
    // pruning at the digest boundary 12 removes blocks 1..=4
    assert_eq!(keep8.oldest_changes_trie_block(&digest_config, 12), 5);
    assert_eq!(keep8.oldest_changes_trie_block(&digest_config, 13), 5);
    assert_eq!(keep8.oldest_changes_trie_block(&digest_config, 16), 9);

    let keep4 = make_storage(Some(4));
    // without digests the window trails the tip by exactly four blocks
    assert_eq!(keep4.oldest_changes_trie_block(&flat_config, 5), 2);
    assert_eq!(keep4.oldest_changes_trie_block(&flat_config, 6), 3);
    assert_eq!(keep4.oldest_changes_trie_block(&flat_config, 4), 1);
}

#[test]
fn config_signal_encoding_is_canonical() {
    assert_eq!(encode_config_signal(&None), vec![0u8]);
    let cfg = ChangesTrieConfiguration { digest_interval: 4, digest_levels: 1 };
    assert_eq!(
        encode_config_signal(&Some(cfg)),
        vec![1u8, 4, 0, 0, 0, 1, 0, 0, 0]
    );
    let wide = ChangesTrieConfiguration { digest_interval: 0x01020304, digest_levels: 2 };
    assert_eq!(
        encode_config_signal(&Some(wide)),
        vec![1u8, 4, 3, 2, 1, 2, 0, 0, 0]
    );
}

#[test]
fn digest_extractors_take_the_first_matching_entry() {
    let cfg = ChangesTrieConfiguration { digest_interval: 8, digest_levels: 1 };
    let header = Header::new(
        h(1),
        h(0),
        1,
        vec![
            DigestItem::Other,
            DigestItem::ChangesTrieRoot(h(42)),
            DigestItem::ChangesTrieSignal(Some(cfg)),
            DigestItem::ChangesTrieRoot(h(43)),
        ],
    );
    assert_eq!(extract_changes_trie_root(&header), Some(h(42)));
    assert_eq!(extract_new_configuration(&header), Some(Some(cfg)));

    let plain = Header::new(h(2), h(1), 2, vec![DigestItem::Other]);
    assert_eq!(extract_changes_trie_root(&plain), None);
    assert_eq!(extract_new_configuration(&plain), None);

    let disable = Header::new(h(3), h(2), 3, vec![DigestItem::ChangesTrieSignal(None)]);
    assert_eq!(extract_new_configuration(&disable), Some(None));
}

#[test]
fn hash_key_bytes_are_big_endian_words() {
    let hash = Hash256 { w0: 0x0102030405060708, w1: 0, w2: 0, w3: 0xff };
    let bytes = hash.to_bytes();
    assert_eq!(bytes.len(), 32);
    assert_eq!(&bytes[0..8], &[1, 2, 3, 4, 5, 6, 7, 8]);
    assert_eq!(&bytes[8..24], &[0u8; 16]);
    assert_eq!(&bytes[24..32], &[0, 0, 0, 0, 0, 0, 0, 0xff]);
}
