use vstd::prelude::*;
use crate::rows::{IntegrationOp, OpView, RowView, TypedRow, row_id};

verus! {

/// The local store as a sequence of (table name, row) entries.
pub type StoreView = Seq<(Seq<char>, RowView)>;

pub open spec fn keys_unique(rows: StoreView) -> bool {
    forall|i: int, j: int|
        0 <= i < rows.len() && 0 <= j < rows.len() && i != j && rows[i].0 == rows[j].0 ==> row_id(
            rows[i].1,
        ) != row_id(rows[j].1)
}

pub open spec fn has_key(rows: StoreView, table: Seq<char>, id: Seq<char>) -> bool {
    exists|i: int| 0 <= i < rows.len() && rows[i].0 == table && row_id(rows[i].1) == id
}

/// The position of the row with the given key, or -1 when there is none.
pub open spec fn key_index(rows: StoreView, table: Seq<char>, id: Seq<char>) -> int {
    if has_key(rows, table, id) {
        choose|i: int| 0 <= i < rows.len() && rows[i].0 == table && row_id(rows[i].1) == id
    } else {
        -1
    }
}

/// Applying one operation: an upsert replaces the row with its key or adds it at the end,
/// a delete removes the row with its key if there is one, an ignored record changes nothing.
pub open spec fn apply_op(rows: StoreView, op: OpView) -> StoreView {
    match op {
        OpView::Upsert(table, row) => {
            let i = key_index(rows, table, row_id(row));
            if i >= 0 {
                rows.update(i, (table, row))
            } else {
                rows.push((table, row))
            }
        },
        OpView::Delete(table, id) => {
            let i = key_index(rows, table, id);
            if i >= 0 {
                rows.remove(i)
            } else {
                rows
            }
        },
        OpView::Ignored(_) => rows,
    }
}

pub open spec fn apply_ops(rows: StoreView, ops: Seq<OpView>) -> StoreView
    decreases ops.len(),
{
    if ops.len() == 0 {
        rows
    } else {
        apply_op(apply_ops(rows, ops.drop_last()), ops.last())
    }
}

/// One row of the local store.
#[derive(Debug)]
pub struct StoredRow {
    pub table_name: String,
    pub row: TypedRow,
}

/// The local relational store that pulled records are integrated into.
pub struct LocalStore {
    rows: Vec<StoredRow>,
}

impl LocalStore {
    pub closed spec fn view_rows(&self) -> StoreView {
        self.rows@.map_values(|r: StoredRow| (r.table_name@, r.row@))
    }

    pub open spec fn wf(&self) -> bool {
        keys_unique(self.view_rows())
    }

    pub fn new() -> (r: Self)
        ensures
            r.wf(),
            r.view_rows() == Seq::<(Seq<char>, RowView)>::empty(),
    {
        let r = LocalStore { rows: Vec::new() };
        assert(r.view_rows() =~= Seq::<(Seq<char>, RowView)>::empty());
        r
    }

    /// The stored rows, in store order.
    pub fn rows(&self) -> (r: &Vec<StoredRow>)
        ensures
            r@.map_values(|x: StoredRow| (x.table_name@, x.row@)) == self.view_rows(),
    {
        &self.rows
    }

    pub fn len(&self) -> (r: usize)
        ensures
            r == self.view_rows().len(),
    {
        self.rows.len()
    }

    /// The position of the row with the given key.
    pub fn find(&self, table_name: &String, id: &String) -> (r: Option<usize>)
        requires
            self.wf(),
        ensures
            match r {
                Some(i) => i == key_index(self.view_rows(), table_name@, id@),
                None => !has_key(self.view_rows(), table_name@, id@),
            },
    {
        let ghost v = self.view_rows();
        let mut i: usize = 0;
        while i < self.rows.len()
            invariant
                v == self.view_rows(),
                keys_unique(v),
                i <= self.rows@.len(),
                forall|k: int|
                    0 <= k < i ==> !(#[trigger] v[k].0 == table_name@ && row_id(v[k].1) == id@),
            decreases self.rows@.len() - i,
        {
            if self.rows[i].table_name == *table_name && *self.rows[i].row.id() == *id {
                proof {
                    assert(v[i as int].0 == table_name@ && row_id(v[i as int].1) == id@);
                    assert(has_key(v, table_name@, id@));
                    let k = key_index(v, table_name@, id@);
                    assert(v[k].0 == table_name@ && row_id(v[k].1) == id@);
                    assert(k == i);
                }
                return Some(i);
            }
            proof {
                assert(v[i as int] == (self.rows@[i as int].table_name@, self.rows@[i as int].row@));
            }
            i = i + 1;
        }
        None
    }

    pub fn contains(&self, table_name: &String, id: &String) -> (r: bool)
        requires
            self.wf(),
        ensures
            r == has_key(self.view_rows(), table_name@, id@),
    {
        self.find(table_name, id).is_some()
    }

    /// The row with the given key.
    pub fn get(&self, table_name: &String, id: &String) -> (r: Option<&TypedRow>)
        requires
            self.wf(),
        ensures
            match r {
                Some(row) => has_key(self.view_rows(), table_name@, id@) && self.view_rows()[key_index(
                    self.view_rows(),
                    table_name@,
                    id@,
                )].1 == row@,
                None => !has_key(self.view_rows(), table_name@, id@),
            },
    {
        match self.find(table_name, id) {
            Some(i) => Some(&self.rows[i].row),
            None => None,
        }
    }

    /// Applies one operation.
    pub fn apply(&mut self, op: IntegrationOp)
        requires
            old(self).wf(),
        ensures
            final(self).wf(),
            final(self).view_rows() == apply_op(old(self).view_rows(), op@),
    {
        let ghost v = self.view_rows();
        let ghost opv = op@;
        match op {
            IntegrationOp::Upsert { table_name, row } => {
                match self.find(&table_name, row.id()) {
                    Some(i) => {
                        let ghost entry = (table_name@, row@);
                        self.rows.set(i, StoredRow { table_name, row });
                        proof {
                            assert(self.view_rows() =~= v.update(i as int, entry));
                        }
                    },
                    None => {
                        let ghost entry = (table_name@, row@);
                        self.rows.push(StoredRow { table_name, row });
                        proof {
                            assert(self.view_rows() =~= v.push(entry));
                            assert(key_index(v, entry.0, row_id(entry.1)) == -1);
                        }
                    },
                }
            },
            IntegrationOp::Delete { table_name, id } => {
                match self.find(&table_name, &id) {
                    Some(i) => {
                        self.rows.remove(i);
                        proof {
                            assert(self.view_rows() =~= v.remove(i as int));
                        }
                    },
                    None => {},
                }
            },
            IntegrationOp::Ignored(_) => {},
        }
        proof {
            lemma_apply_keeps_keys_unique(v, opv);
        }
    }
}

/// Applying an operation keeps at most one row per key.
pub proof fn lemma_apply_keeps_keys_unique(rows: StoreView, op: OpView)
    requires
        keys_unique(rows),
    ensures
        keys_unique(apply_op(rows, op)),
{
    let r = apply_op(rows, op);
    match op {
        OpView::Upsert(table, row) => {
            let i = key_index(rows, table, row_id(row));
            if i >= 0 {
                assert forall|a: int, b: int|
                    0 <= a < r.len() && 0 <= b < r.len() && a != b && r[a].0 == r[b].0 implies row_id(
                    r[a].1,
                ) != row_id(r[b].1) by {
                    if a != i && b != i {
                        assert(r[a] == rows[a] && r[b] == rows[b]);
                    }
                }
            } else {
                assert forall|a: int, b: int|
                    0 <= a < r.len() && 0 <= b < r.len() && a != b && r[a].0 == r[b].0 implies row_id(
                    r[a].1,
                ) != row_id(r[b].1) by {
                    if a < rows.len() && b < rows.len() {
                        assert(r[a] == rows[a] && r[b] == rows[b]);
                    } else if a == rows.len() {
                        assert(!(rows[b].0 == table && row_id(rows[b].1) == row_id(row)));
                    } else {
                        assert(!(rows[a].0 == table && row_id(rows[a].1) == row_id(row)));
                    }
                }
            }
        },
        OpView::Delete(table, id) => {
            let i = key_index(rows, table, id);
            if i >= 0 {
                assert forall|a: int, b: int|
                    0 <= a < r.len() && 0 <= b < r.len() && a != b && r[a].0 == r[b].0 implies row_id(
                    r[a].1,
                ) != row_id(r[b].1) by {
                    let a0 = if a < i { a } else { a + 1 };
                    let b0 = if b < i { b } else { b + 1 };
                    assert(r[a] == rows[a0] && r[b] == rows[b0]);
                }
            }
        },
        OpView::Ignored(_) => {},
    }
}

/// Applying the same operation twice leaves the store as applying it once.
pub proof fn lemma_apply_idempotent(rows: StoreView, op: OpView)
    requires
        keys_unique(rows),
    ensures
        apply_op(apply_op(rows, op), op) == apply_op(rows, op),
{
    let once = apply_op(rows, op);
    lemma_apply_keeps_keys_unique(rows, op);
    match op {
        OpView::Upsert(table, row) => {
            let i = key_index(rows, table, row_id(row));
            let j = if i >= 0 { i } else { rows.len() as int };
            assert(once[j] == (table, row));
            assert(has_key(once, table, row_id(row)));
            let k = key_index(once, table, row_id(row));
            assert(k == j);
            assert(once.update(j, (table, row)) =~= once);
        },
        OpView::Delete(table, id) => {
            let i = key_index(rows, table, id);
            if i >= 0 {
                if has_key(once, table, id) {
                    let k = choose|k: int|
                        0 <= k < once.len() && once[k].0 == table && row_id(once[k].1) == id;
                    let k0 = if k < i { k } else { k + 1 };
                    assert(once[k] == rows[k0]);
                }
            }
        },
        OpView::Ignored(_) => {},
    }
}

} // verus!
