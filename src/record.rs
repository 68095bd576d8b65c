use vstd::prelude::*;

verus! {

/// What a synchronised record asks of the receiving side.
#[derive(Clone, Copy, Debug, PartialEq, Eq, Structural)]
pub enum SyncAction {
    Upsert,
    Delete,
}

/// A record in the legacy wire shape, as pulled from or pushed to the central server.
#[derive(Debug, PartialEq, Eq)]
pub struct RawSyncRecord {
    pub table_name: String,
    pub record_id: String,
    /// The serialised legacy row (a JSON object); empty for deletes.
    pub data: String,
    pub action: SyncAction,
    pub sequence: Option<u64>,
}

impl RawSyncRecord {
    pub fn duplicate(&self) -> (r: Self)
        ensures
            r == *self,
    {
        RawSyncRecord {
            table_name: self.table_name.clone(),
            record_id: self.record_id.clone(),
            data: self.data.clone(),
            action: self.action,
            sequence: self.sequence,
        }
    }

    /// Whether both records address the same row of the same table.
    pub open spec fn same_key(&self, other: &RawSyncRecord) -> bool {
        self.table_name@ == other.table_name@ && self.record_id@ == other.record_id@
    }
}

/// One local mutation awaiting push.
#[derive(Debug, PartialEq, Eq)]
pub struct ChangelogEntry {
    pub sequence: u64,
    pub table_name: String,
    pub row_id: String,
    pub action: SyncAction,
}

impl ChangelogEntry {
    pub fn duplicate(&self) -> (r: Self)
        ensures
            r == *self,
    {
        ChangelogEntry {
            sequence: self.sequence,
            table_name: self.table_name.clone(),
            row_id: self.row_id.clone(),
            action: self.action,
        }
    }
}

/// One answer of the transport to a pull request.
#[derive(Debug)]
pub struct PullBatch {
    pub records: Vec<RawSyncRecord>,
    pub cursor_after_batch: u64,
    pub remaining_count: u64,
}

} // verus!
