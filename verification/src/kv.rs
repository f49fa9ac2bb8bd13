//! The column-oriented transactional key-value store, from the `kvdb`
//! crates. The store and its transactions are opaque here; their contents
//! are named and every call the crate makes goes through a contract checked
//! against the `kvdb` sources.

use vstd::prelude::*;

verus! {

#[verifier::external_type_specification]
#[verifier::external_body]
pub struct ExInMemory(kvdb_memorydb::InMemory);

#[verifier::external_type_specification]
#[verifier::external_body]
pub struct ExDBTransaction(kvdb::DBTransaction);

/// What the store holds: the stored value of each (column, key).
pub uninterp spec fn kv_map(db: kvdb_memorydb::InMemory) -> Map<(u32, Seq<u8>), Seq<u8>>;

/// How many columns the store was created with; columns are 0..this.
pub uninterp spec fn kv_num_cols(db: kvdb_memorydb::InMemory) -> u32;

/// A staged operation, as `(tag, column, key, value)`: tag 0 is a put,
/// tag 1 a delete (value empty), tag 2 a prefix delete (the key holds the
/// prefix, value empty).
pub type KvOp = (u8, u32, Seq<u8>, Seq<u8>);

/// The contents of a store with nothing in it.
pub open spec fn kv_empty() -> Map<(u32, Seq<u8>), Seq<u8>> {
    Map::empty()
}

/// No staged operations.
pub open spec fn no_ops() -> Seq<KvOp> {
    Seq::empty()
}

/// The staged operations of a transaction, in order.
pub uninterp spec fn tx_ops(tx: kvdb::DBTransaction) -> Seq<KvOp>;

/// A staged put of `value` under `key` in `col`.
pub open spec fn put_op(col: u32, key: Seq<u8>, value: Seq<u8>) -> KvOp {
    (0u8, col, key, value)
}

/// A staged removal of `key` in `col`.
pub open spec fn delete_op(col: u32, key: Seq<u8>) -> KvOp {
    (1u8, col, key, Seq::empty())
}

/// Whether `p` is a prefix of `k`.
pub open spec fn is_key_prefix(p: Seq<u8>, k: Seq<u8>) -> bool {
    p.len() <= k.len() && k.subrange(0, p.len() as int) == p
}

/// One operation applied to the store's contents. Operations naming a
/// column the store was not created with are ignored.
pub open spec fn kv_apply_op(
    m: Map<(u32, Seq<u8>), Seq<u8>>,
    ncols: u32,
    op: KvOp,
) -> Map<(u32, Seq<u8>), Seq<u8>> {
    if op.1 >= ncols {
        m
    } else if op.0 == 0 {
        m.insert((op.1, op.2), op.3)
    } else if op.0 == 1 {
        m.remove((op.1, op.2))
    } else {
        Map::new(
            |k: (u32, Seq<u8>)|
                m.dom().contains(k) && !(k.0 == op.1 && is_key_prefix(op.2, k.1)),
            |k: (u32, Seq<u8>)| m[k],
        )
    }
}

/// A whole transaction applied to the store's contents, in order.
pub open spec fn kv_apply(
    m: Map<(u32, Seq<u8>), Seq<u8>>,
    ncols: u32,
    ops: Seq<KvOp>,
) -> Map<(u32, Seq<u8>), Seq<u8>>
    decreases ops.len(),
{
    if ops.len() == 0 {
        m
    } else {
        kv_apply_op(kv_apply(m, ncols, ops.drop_last()), ncols, ops.last())
    }
}

/// Whether an operation would change or remove the value under `k`.
pub open spec fn op_touches(op: KvOp, k: (u32, Seq<u8>)) -> bool {
    op.1 == k.0 && (if op.0 == 0 || op.0 == 1 {
        op.2 == k.1
    } else {
        is_key_prefix(op.2, k.1)
    })
}

/// Operations that touch only other keys leave a key's value alone.
pub proof fn lemma_apply_untouched(
    m: Map<(u32, Seq<u8>), Seq<u8>>,
    ncols: u32,
    ops: Seq<KvOp>,
    k: (u32, Seq<u8>),
)
    requires
        forall|j: int| 0 <= j < ops.len() ==> !op_touches(ops[j], k),
    ensures
        kv_apply(m, ncols, ops).contains_key(k) == m.contains_key(k),
        m.contains_key(k) ==> kv_apply(m, ncols, ops)[k] == m[k],
    decreases ops.len(),
{
    if ops.len() > 0 {
        assert forall|j: int| 0 <= j < ops.drop_last().len() implies !op_touches(
            ops.drop_last()[j],
            k,
        ) by {
            assert(ops.drop_last()[j] == ops[j]);
        }
        lemma_apply_untouched(m, ncols, ops.drop_last(), k);
        assert(!op_touches(ops[ops.len() - 1], k));
    }
}

/// Applying concatenated operation lists applies them in turn.
pub proof fn lemma_apply_concat(
    m: Map<(u32, Seq<u8>), Seq<u8>>,
    ncols: u32,
    a: Seq<KvOp>,
    b: Seq<KvOp>,
)
    ensures
        kv_apply(m, ncols, a + b) == kv_apply(kv_apply(m, ncols, a), ncols, b),
    decreases b.len(),
{
    if b.len() == 0 {
        assert(a + b =~= a);
    } else {
        lemma_apply_concat(m, ncols, a, b.drop_last());
        assert((a + b).drop_last() =~= a + b.drop_last());
        assert((a + b).last() == b.last());
    }
}

/// A put staged last decides the stored value of its key.
pub proof fn lemma_apply_put_last(
    m: Map<(u32, Seq<u8>), Seq<u8>>,
    ncols: u32,
    ops: Seq<KvOp>,
    col: u32,
    key: Seq<u8>,
    value: Seq<u8>,
)
    requires
        col < ncols,
        ops.len() > 0,
        ops.last() == put_op(col, key, value),
    ensures
        kv_apply(m, ncols, ops).contains_key((col, key)),
        kv_apply(m, ncols, ops)[(col, key)] == value,
{
}

/// Relies on `kvdb_memorydb::create`: a fresh store whose columns are
/// `0..num_cols`, all empty.
#[verifier::external_body]
pub fn kv_create(num_cols: u32) -> (r: kvdb_memorydb::InMemory)
    ensures
        kv_num_cols(r) == num_cols,
        kv_map(r) == kv_empty(),
{
    kvdb_memorydb::create(num_cols)
}

/// Relies on `KeyValueDB::get` of `kvdb_memorydb::InMemory`: a lookup in
/// the column's map, which cannot fail for a column the store has.
#[verifier::external_body]
pub fn kv_get(db: &kvdb_memorydb::InMemory, col: u32, key: &[u8]) -> (r: Option<Vec<u8>>)
    requires
        col < kv_num_cols(*db),
    ensures
        match r {
            Some(v) => kv_map(*db).dom().contains((col, key@)) && v@ == kv_map(*db)[(col, key@)],
            None => !kv_map(*db).dom().contains((col, key@)),
        },
{
    match kvdb::KeyValueDB::get(db, col, key) {
        Ok(v) => v,
        Err(_) => None,
    }
}

/// Relies on `KeyValueDB::write` of `kvdb_memorydb::InMemory`: applies the
/// transaction's operations to the columns in order and cannot fail.
#[verifier::external_body]
pub fn kv_write(db: &mut kvdb_memorydb::InMemory, tx: kvdb::DBTransaction)
    ensures
        kv_num_cols(*final(db)) == kv_num_cols(*old(db)),
        kv_map(*final(db)) == kv_apply(kv_map(*old(db)), kv_num_cols(*old(db)), tx_ops(tx)),
{
    let _ = kvdb::KeyValueDB::write(db, tx);
}

/// Relies on `kvdb::DBTransaction::new`: a transaction with no operations.
#[verifier::external_body]
pub fn tx_new() -> (r: kvdb::DBTransaction)
    ensures
        tx_ops(r) == no_ops(),
{
    kvdb::DBTransaction::new()
}

/// Relies on `kvdb::DBTransaction::put`: stages an insert of `(key, value)`
/// into `col`, after everything already staged.
#[verifier::external_body]
pub fn tx_put(tx: &mut kvdb::DBTransaction, col: u32, key: &[u8], value: &[u8])
    ensures
        tx_ops(*final(tx)) == tx_ops(*old(tx)).push(put_op(col, key@, value@)),
{
    tx.put(col, key, value)
}

/// Relies on `kvdb::DBTransaction::delete`: stages a removal of `key` from
/// `col`, after everything already staged.
#[verifier::external_body]
pub fn tx_delete(tx: &mut kvdb::DBTransaction, col: u32, key: &[u8])
    ensures
        tx_ops(*final(tx)) == tx_ops(*old(tx)).push(delete_op(col, key@)),
{
    tx.delete(col, key)
}

} // verus!
