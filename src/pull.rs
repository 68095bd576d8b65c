use vstd::prelude::*;
use crate::record::RawSyncRecord;
use crate::registry::names_of;
use crate::store::{LocalStore, StoreView, apply_op};
use crate::translator::{Translator, pull_record_view};

verus! {

/// The translator registered for a table name.
pub open spec fn translator_for(ts: Seq<Translator>, table: Seq<char>) -> Translator {
    ts[choose|i: int| 0 <= i < ts.len() && ts[i].table_name@ == table]
}

/// The store and the ids of records that failed translation, after integrating in order
/// the records of one table.
pub open spec fn integrate_table(
    t: Translator,
    records: Seq<RawSyncRecord>,
    start: (StoreView, Seq<Seq<char>>),
) -> (StoreView, Seq<Seq<char>>)
    decreases records.len(),
{
    if records.len() == 0 {
        start
    } else {
        let prev = integrate_table(t, records.drop_last(), start);
        let r = records.last();
        if r.table_name@ != t.table_name@ {
            prev
        } else {
            match pull_record_view(
                t.table_name@,
                t.mapping,
                r.action,
                r.record_id@,
                r.data@,
                prev.0,
            ) {
                Some(op) => (apply_op(prev.0, op), prev.1),
                None => (prev.0, prev.1.push(r.record_id@)),
            }
        }
    }
}

/// The store and the failed record ids after integrating the tables in `order`, one table
/// after another.
pub open spec fn integrate_tables(
    ts: Seq<Translator>,
    order: Seq<Seq<char>>,
    records: Seq<RawSyncRecord>,
    start: (StoreView, Seq<Seq<char>>),
) -> (StoreView, Seq<Seq<char>>)
    decreases order.len(),
{
    if order.len() == 0 {
        start
    } else {
        let prev = integrate_tables(ts, order.drop_last(), records, start);
        integrate_table(translator_for(ts, order.last()), records, prev)
    }
}

/// The tables named by staged records.
pub open spec fn record_tables(records: Seq<RawSyncRecord>) -> Seq<String> {
    records.map_values(|r: RawSyncRecord| r.table_name)
}

/// The table names of a list of records, in record order.
pub fn table_names(records: &Vec<RawSyncRecord>) -> (r: Vec<String>)
    ensures
        names_of(r@) == names_of(record_tables(records@)),
{
    let mut r: Vec<String> = Vec::new();
    let mut i: usize = 0;
    while i < records.len()
        invariant
            i <= records@.len(),
            names_of(r@) == names_of(record_tables(records@.take(i as int))),
        decreases records@.len() - i,
    {
        let ghost before = r@;
        r.push(records[i].table_name.clone());
        proof {
            assert(names_of(r@) =~= names_of(before).push(records@[i as int].table_name@));
            assert(names_of(record_tables(records@.take(i + 1))) =~= names_of(
                record_tables(records@.take(i as int)),
            ).push(records@[i as int].table_name@));
        }
        i = i + 1;
    }
    assert(records@.take(i as int) =~= records@);
    r
}

/// Integrates, in order, the records of one table into the store, collecting the ids of
/// those that fail translation.
pub fn integrate_table_records(
    translator: &Translator,
    records: &Vec<RawSyncRecord>,
    store: &mut LocalStore,
    failed: &mut Vec<String>,
)
    requires
        old(store).wf(),
    ensures
        final(store).wf(),
        (final(store).view_rows(), names_of(final(failed)@)) == integrate_table(
            *translator,
            records@,
            (old(store).view_rows(), names_of(old(failed)@)),
        ),
{
    let ghost start = (store.view_rows(), names_of(failed@));
    let mut k: usize = 0;
    proof {
        assert(records@.take(0) =~= Seq::<RawSyncRecord>::empty());
    }
    while k < records.len()
        invariant
            k <= records@.len(),
            store.wf(),
            (store.view_rows(), names_of(failed@)) == integrate_table(
                *translator,
                records@.take(k as int),
                start,
            ),
        decreases records@.len() - k,
    {
        let record = &records[k];
        proof {
            assert(records@.take(k + 1).drop_last() =~= records@.take(k as int));
            assert(records@.take(k + 1).last() == records@[k as int]);
        }
        if record.table_name == translator.table_name {
            match translator.translate_pull(record, store) {
                Ok(op) => {
                    store.apply(op);
                },
                Err(_) => {
                    let ghost before = failed@;
                    failed.push(record.record_id.clone());
                    proof {
                        assert(names_of(failed@) =~= names_of(before).push(record.record_id@));
                    }
                },
            }
        }
        k = k + 1;
    }
    assert(records@.take(k as int) =~= records@);
}

} // verus!
