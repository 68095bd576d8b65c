use vstd::prelude::*;
use crate::record::RawSyncRecord;

verus! {

/// Some record of `batch` addresses the same row as `r`.
pub open spec fn key_in(batch: Seq<RawSyncRecord>, r: RawSyncRecord) -> bool {
    exists|k: int| 0 <= k < batch.len() && (#[trigger] batch[k]).same_key(&r)
}

/// The staged records that no record of `batch` supersedes, in staging order.
pub open spec fn drop_keys(buf: Seq<RawSyncRecord>, batch: Seq<RawSyncRecord>) -> Seq<RawSyncRecord>
    decreases buf.len(),
{
    if buf.len() == 0 {
        Seq::empty()
    } else if key_in(batch, buf.last()) {
        drop_keys(buf.drop_last(), batch)
    } else {
        drop_keys(buf.drop_last(), batch).push(buf.last())
    }
}

/// The staging buffer after staging `batch`: a staged record stays unless the batch holds a
/// newer copy of the same row, and the batch's records follow in their order.
pub open spec fn restage(buf: Seq<RawSyncRecord>, batch: Seq<RawSyncRecord>) -> Seq<RawSyncRecord> {
    drop_keys(buf, batch) + batch
}

proof fn lemma_drop_keys_concat(x: Seq<RawSyncRecord>, y: Seq<RawSyncRecord>, b: Seq<RawSyncRecord>)
    ensures
        drop_keys(x + y, b) == drop_keys(x, b) + drop_keys(y, b),
    decreases y.len(),
{
    if y.len() == 0 {
        assert(x + y =~= x);
        assert(drop_keys(x, b) + drop_keys(y, b) =~= drop_keys(x, b));
    } else {
        lemma_drop_keys_concat(x, y.drop_last(), b);
        assert((x + y).drop_last() =~= x + y.drop_last());
        assert((x + y).last() == y.last());
        if !key_in(b, y.last()) {
            assert(drop_keys(x, b) + drop_keys(y.drop_last(), b).push(y.last()) =~= (drop_keys(
                x,
                b,
            ) + drop_keys(y.drop_last(), b)).push(y.last()));
        }
    }
}

proof fn lemma_drop_keys_superseded(y: Seq<RawSyncRecord>, b: Seq<RawSyncRecord>)
    requires
        forall|k: int| 0 <= k < y.len() ==> key_in(b, #[trigger] y[k]),
    ensures
        drop_keys(y, b) == Seq::<RawSyncRecord>::empty(),
    decreases y.len(),
{
    if y.len() > 0 {
        assert(key_in(b, y[y.len() - 1]));
        assert forall|k: int| 0 <= k < y.drop_last().len() implies key_in(
            b,
            #[trigger] y.drop_last()[k],
        ) by {
            assert(y.drop_last()[k] == y[k]);
        }
        lemma_drop_keys_superseded(y.drop_last(), b);
    }
}

proof fn lemma_drop_keys_idempotent(x: Seq<RawSyncRecord>, b: Seq<RawSyncRecord>)
    ensures
        drop_keys(drop_keys(x, b), b) == drop_keys(x, b),
    decreases x.len(),
{
    if x.len() > 0 {
        lemma_drop_keys_idempotent(x.drop_last(), b);
        let rest = drop_keys(x.drop_last(), b);
        if !key_in(b, x.last()) {
            let d = rest.push(x.last());
            assert(d.drop_last() =~= rest);
            assert(d.last() == x.last());
        }
    }
}

/// Staging the same batch twice leaves the buffer as staging it once.
pub proof fn lemma_restage_idempotent(buf: Seq<RawSyncRecord>, batch: Seq<RawSyncRecord>)
    ensures
        restage(restage(buf, batch), batch) == restage(buf, batch),
{
    lemma_drop_keys_concat(drop_keys(buf, batch), batch, batch);
    assert forall|k: int| 0 <= k < batch.len() implies key_in(batch, #[trigger] batch[k]) by {
        assert(batch[k].same_key(&batch[k]));
    }
    lemma_drop_keys_superseded(batch, batch);
    lemma_drop_keys_idempotent(buf, batch);
    assert(drop_keys(buf, batch) + Seq::<RawSyncRecord>::empty() =~= drop_keys(buf, batch));
}

/// Whether some record of `batch` addresses the same row as `r`.
fn superseded(batch: &Vec<RawSyncRecord>, r: &RawSyncRecord) -> (res: bool)
    ensures
        res == key_in(batch@, *r),
{
    let mut k: usize = 0;
    while k < batch.len()
        invariant
            k <= batch@.len(),
            forall|m: int| 0 <= m < k ==> !(#[trigger] batch@[m]).same_key(r),
        decreases batch@.len() - k,
    {
        if batch[k].table_name == r.table_name && batch[k].record_id == r.record_id {
            return true;
        }
        k = k + 1;
    }
    false
}

/// The staging buffer after staging `batch`.
pub fn restage_records(staged: &Vec<RawSyncRecord>, batch: Vec<RawSyncRecord>) -> (r: Vec<
    RawSyncRecord,
>)
    ensures
        r@ == restage(staged@, batch@),
{
    let mut r: Vec<RawSyncRecord> = Vec::new();
    let mut i: usize = 0;
    proof {
        assert(staged@.take(0) =~= Seq::<RawSyncRecord>::empty());
    }
    while i < staged.len()
        invariant
            i <= staged@.len(),
            r@ == drop_keys(staged@.take(i as int), batch@),
        decreases staged@.len() - i,
    {
        proof {
            assert(staged@.take(i + 1).drop_last() =~= staged@.take(i as int));
            assert(staged@.take(i + 1).last() == staged@[i as int]);
        }
        if !superseded(&batch, &staged[i]) {
            r.push(staged[i].duplicate());
        }
        i = i + 1;
    }
    proof {
        assert(staged@.take(i as int) =~= staged@);
    }
    let ghost kept = r@;
    let mut batch = batch;
    let ghost b = batch@;
    r.append(&mut batch);
    proof {
        assert(r@ =~= kept + b);
    }
    r
}

} // verus!

verus! {

/// A staged record that the batch does not supersede stays staged.
pub proof fn lemma_restage_keeps(buf: Seq<RawSyncRecord>, batch: Seq<RawSyncRecord>, i: int)
    requires
        0 <= i < buf.len(),
        !key_in(batch, buf[i]),
    ensures
        restage(buf, batch).contains(buf[i]),
    decreases buf.len(),
{
    let d = drop_keys(buf, batch);
    if i == buf.len() - 1 {
        assert(d.last() == buf[i]);
        assert(restage(buf, batch)[d.len() - 1] == buf[i]);
    } else {
        lemma_restage_keeps(buf.drop_last(), batch, i);
        assert(buf.drop_last()[i] == buf[i]);
        let d0 = drop_keys(buf.drop_last(), batch);
        let k = choose|k: int| 0 <= k < restage(buf.drop_last(), batch).len() && restage(
            buf.drop_last(),
            batch,
        )[k] == buf[i];
        if k < d0.len() {
            assert(d[k] == d0[k]);
            assert(restage(buf, batch)[k] == buf[i]);
        } else {
            assert(restage(buf.drop_last(), batch)[k] == batch[k - d0.len()]);
            assert(batch[k - d0.len()].same_key(&buf[i]));
            assert(key_in(batch, buf[i]));
        }
    }
}

} // verus!
