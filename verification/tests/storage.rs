use changes_tries::kv::{kv_create, tx_new};
use changes_tries::{
    AnchorBlockId, ChangesTrieConfiguration, ComplexBlockId, DbChangesTrieStorage, DigestItem,
    Hash256, Header, Meta,
};

fn h(n: u64) -> Hash256 {
    Hash256::from_low(n)
}

fn fold_bytes(mut acc: u64, bytes: &[u8]) -> u64 {
    for b in bytes {
        acc = acc.wrapping_mul(31).wrapping_add(*b as u64);
    }
    acc
}

/// A stand-in for the trie builder: a root derived from the changes alone.
fn changes_root(changes: &[(Vec<u8>, Vec<u8>)]) -> Hash256 {
    let mut acc: u64 = 0xcafe;
    for (key, val) in changes {
        acc = fold_bytes(acc, key);
        acc = acc.wrapping_mul(131).wrapping_add(0x5e);
        acc = fold_bytes(acc, val);
    }
    Hash256 { w0: 0x17, w1: 0, w2: acc.rotate_left(17), w3: acc }
}

fn node_hash(key: &[u8]) -> Hash256 {
    let acc = fold_bytes(0xbeef, key);
    Hash256 { w0: 0x23, w1: acc.rotate_left(7), w2: 0, w3: acc }
}

/// A stand-in for trie construction: one node per changed pair, plus the
/// root node carrying all bytes.
fn prepare_changes(changes: &[(Vec<u8>, Vec<u8>)]) -> (Hash256, Vec<(Hash256, Vec<u8>)>) {
    let root = changes_root(changes);
    let mut trie = Vec::new();
    let mut root_bytes: Vec<u8> = Vec::new();
    for (key, val) in changes {
        root_bytes.extend_from_slice(key);
        root_bytes.extend_from_slice(val);
        trie.push((node_hash(key), val.clone()));
    }
    trie.push((root, root_bytes));
    (root, trie)
}

fn block_hash(number: u64, parent: &Hash256, root: &Hash256) -> Hash256 {
    Hash256 {
        w0: 0xb10c,
        w1: number,
        w2: parent.w3 ^ root.w2,
        w3: root.w3.wrapping_add(number),
    }
}

fn make_storage(min_blocks_to_keep: Option<u32>) -> DbChangesTrieStorage {
    let db = kv_create(4);
    let meta = Meta { finalized_hash: h(0), finalized_number: 0, genesis_hash: h(0) };
    DbChangesTrieStorage::new(db, 0, 1, 2, 3, meta, min_blocks_to_keep)
}

fn insert_block(
    storage: &mut DbChangesTrieStorage,
    number: u64,
    parent: Hash256,
    changes: Vec<(Vec<u8>, Vec<u8>)>,
) -> Hash256 {
    let (root, trie) = prepare_changes(&changes);
    let hash = block_hash(number, &parent, &root);
    let header = Header::new(
        hash,
        parent,
        number,
        vec![DigestItem::Other, DigestItem::ChangesTrieRoot(root)],
    );
    storage.insert_header(header);
    let mut tx = tx_new();
    let parent_number = if number == 0 { 0 } else { number - 1 };
    let ops = storage
        .commit(
            &mut tx,
            trie,
            ComplexBlockId { hash: parent, number: parent_number },
            ComplexBlockId { hash, number },
            false,
            None,
        )
        .unwrap();
    assert!(ops.is_none());
    storage.write_transaction(tx);
    hash
}

fn check_changes(
    storage: &DbChangesTrieStorage,
    anchor_hash: Hash256,
    block: u64,
    changes: Vec<(Vec<u8>, Vec<u8>)>,
) {
    let (changes_root, changes_trie_update) = prepare_changes(&changes);
    let anchor = AnchorBlockId { hash: anchor_hash, number: block };
    assert_eq!(storage.root(&anchor, block), Ok(Some(changes_root)));

    for (key, val) in changes_trie_update {
        assert_eq!(storage.get(&key, &[]), Ok(Some(val)));
    }
}

#[test]
fn changes_trie_storage_works() {
    let mut storage = make_storage(None);
    storage.set_finalized_number(1000);

    let changes0 = vec![(b"key_at_0".to_vec(), b"val_at_0".to_vec())];
    let changes1 = vec![
        (b"key_at_1".to_vec(), b"val_at_1".to_vec()),
        (b"another_key_at_1".to_vec(), b"another_val_at_1".to_vec()),
    ];
    let changes2 = vec![(b"key_at_2".to_vec(), b"val_at_2".to_vec())];

    let block0 = insert_block(&mut storage, 0, h(0), changes0.clone());
    let block1 = insert_block(&mut storage, 1, block0, changes1.clone());
    let block2 = insert_block(&mut storage, 2, block1, changes2.clone());

    // check that the storage contains tries for all blocks
    check_changes(&storage, block0, 0, changes0);
    check_changes(&storage, block1, 1, changes1);
    check_changes(&storage, block2, 2, changes2);
}

#[test]
fn changes_trie_storage_works_with_forks() {
    let mut storage = make_storage(None);

    let changes0 = vec![(b"k0".to_vec(), b"v0".to_vec())];
    let changes1 = vec![(b"k1".to_vec(), b"v1".to_vec())];
    let changes2 = vec![(b"k2".to_vec(), b"v2".to_vec())];
    let block0 = insert_block(&mut storage, 0, h(0), changes0.clone());
    let block1 = insert_block(&mut storage, 1, block0, changes1.clone());
    let block2 = insert_block(&mut storage, 2, block1, changes2.clone());

    let changes2_1_0 = vec![(b"k3".to_vec(), b"v3".to_vec())];
    let changes2_1_1 = vec![(b"k4".to_vec(), b"v4".to_vec())];
    let block2_1_0 = insert_block(&mut storage, 3, block2, changes2_1_0.clone());
    let block2_1_1 = insert_block(&mut storage, 4, block2_1_0, changes2_1_1.clone());

    let changes2_2_0 = vec![(b"k5".to_vec(), b"v5".to_vec())];
    let changes2_2_1 = vec![(b"k6".to_vec(), b"v6".to_vec())];
    let block2_2_0 = insert_block(&mut storage, 3, block2, changes2_2_0.clone());
    let block2_2_1 = insert_block(&mut storage, 4, block2_2_0, changes2_2_1.clone());

    // finalize block1
    storage.set_finalized_number(1);

    // branch1: when asking for finalized block hash
    let (changes1_root, _) = prepare_changes(&changes1);
    let anchor = AnchorBlockId { hash: block2_1_1, number: 4 };
    assert_eq!(storage.root(&anchor, 1), Ok(Some(changes1_root)));

    // branch2: when asking for finalized block hash
    let anchor = AnchorBlockId { hash: block2_2_1, number: 4 };
    assert_eq!(storage.root(&anchor, 1), Ok(Some(changes1_root)));

    // branch1: when asking for non-finalized block hash (search by traversal)
    let (changes2_1_0_root, _) = prepare_changes(&changes2_1_0);
    let anchor = AnchorBlockId { hash: block2_1_1, number: 4 };
    assert_eq!(storage.root(&anchor, 3), Ok(Some(changes2_1_0_root)));

    // branch2: when asking for non-finalized block hash (search using canonicalized hint)
    let (changes2_2_0_root, _) = prepare_changes(&changes2_2_0);
    let anchor = AnchorBlockId { hash: block2_2_1, number: 4 };
    assert_eq!(storage.root(&anchor, 3), Ok(Some(changes2_2_0_root)));

    // finalize first block of branch2 (block2_2_0)
    storage.set_finalized_number(3);

    // branch2: when asking for finalized block of this branch
    assert_eq!(storage.root(&anchor, 3), Ok(Some(changes2_2_0_root)));

    // branch1: when asking for finalized block of other branch
    // => result is incorrect (returned for the block of branch1), but this is expected,
    // because the other fork is abandoned (forked before finalized header)
    let anchor = AnchorBlockId { hash: block2_1_1, number: 4 };
    assert_eq!(storage.root(&anchor, 3), Ok(Some(changes2_2_0_root)));
}

#[test]
fn changes_tries_with_digest_are_pruned_on_finalization() {
    let mut storage = make_storage(Some(8));
    let config = ChangesTrieConfiguration { digest_interval: 2, digest_levels: 2 };

    // insert some blocks
    let mut hashes: Vec<Hash256> = Vec::new();
    let mut roots: Vec<Hash256> = Vec::new();
    let mut parent = h(0);
    for i in 0u64..14 {
        let key = format!("key_at_{}", i).into_bytes();
        let val = format!("val_at_{}", i).into_bytes();
        let changes = vec![(key, val)];
        let (root, _) = prepare_changes(&changes);
        parent = insert_block(&mut storage, i, parent, changes);
        hashes.push(parent);
        roots.push(root);
    }
    storage.set_finalized_number(13);

    // check that roots of all tries are stored
    let anchor = AnchorBlockId { hash: hashes[13], number: 13 };
    for i in 1..13usize {
        assert_eq!(storage.root(&anchor, i as u64), Ok(Some(roots[i])));
    }

    // now simulate finalization of block#12, causing prune of tries at #1..#4
    let mut tx = tx_new();
    storage.prune(&config, &mut tx, h(0), 12);
    storage.write_transaction(tx);
    assert!(storage.get(&roots[1], &[]).unwrap().is_none());
    assert!(storage.get(&roots[2], &[]).unwrap().is_none());
    assert!(storage.get(&roots[3], &[]).unwrap().is_none());
    assert!(storage.get(&roots[4], &[]).unwrap().is_none());
    assert!(storage.get(&roots[5], &[]).unwrap().is_some());
    assert!(storage.get(&roots[6], &[]).unwrap().is_some());
    assert!(storage.get(&roots[7], &[]).unwrap().is_some());
    assert!(storage.get(&roots[8], &[]).unwrap().is_some());

    // now simulate finalization of block#16, causing prune of tries at #5..#8
    let mut tx = tx_new();
    storage.prune(&config, &mut tx, h(0), 16);
    storage.write_transaction(tx);
    assert!(storage.get(&roots[5], &[]).unwrap().is_none());
    assert!(storage.get(&roots[6], &[]).unwrap().is_none());
    assert!(storage.get(&roots[7], &[]).unwrap().is_none());
    assert!(storage.get(&roots[8], &[]).unwrap().is_none());

    // now "change" pruning mode to archive && simulate finalization of block#20
    // => no changes tries are pruned, because we never prune in archive mode
    storage.set_min_blocks_to_keep(None);
    let mut tx = tx_new();
    storage.prune(&config, &mut tx, h(0), 20);
    storage.write_transaction(tx);
    assert!(storage.get(&roots[9], &[]).unwrap().is_some());
    assert!(storage.get(&roots[10], &[]).unwrap().is_some());
    assert!(storage.get(&roots[11], &[]).unwrap().is_some());
    assert!(storage.get(&roots[12], &[]).unwrap().is_some());
}

#[test]
fn changes_tries_without_digest_are_pruned_on_finalization() {
    let mut storage = make_storage(Some(4));
    let config = ChangesTrieConfiguration { digest_interval: 0, digest_levels: 0 };

    // insert some blocks
    let mut hashes: Vec<Hash256> = Vec::new();
    let mut roots: Vec<Hash256> = Vec::new();
    let mut parent = h(0);
    for i in 0u64..7 {
        let key = format!("key_at_{}", i).into_bytes();
        let val = format!("val_at_{}", i).into_bytes();
        let changes = vec![(key, val)];
        let (root, _) = prepare_changes(&changes);
        parent = insert_block(&mut storage, i, parent, changes);
        hashes.push(parent);
        roots.push(root);
    }

    // check that roots of all tries are stored
    let anchor = AnchorBlockId { hash: hashes[6], number: 6 };
    for i in 1..7usize {
        assert_eq!(storage.root(&anchor, i as u64), Ok(Some(roots[i])));
    }

    // now simulate finalization of block#5, causing prune of trie at #1
    let mut tx = tx_new();
    storage.prune(&config, &mut tx, hashes[5], 5);
    storage.write_transaction(tx);
    assert!(storage.get(&roots[1], &[]).unwrap().is_none());
    assert!(storage.get(&roots[2], &[]).unwrap().is_some());

    // now simulate finalization of block#6, causing prune of tries at #2
    let mut tx = tx_new();
    storage.prune(&config, &mut tx, hashes[6], 6);
    storage.write_transaction(tx);
    assert!(storage.get(&roots[2], &[]).unwrap().is_none());
    assert!(storage.get(&roots[3], &[]).unwrap().is_some());
}
