use vstd::prelude::*;
use crate::record::{RawSyncRecord, SyncAction};
use crate::text::text;
use crate::json::{json_object_text, legacy_fields_to_json};
use crate::rows::{NameRow, TypedRow};

verus! {

/// A pulled legacy name record, as the central server sends it.
pub fn get_test_name_records() -> (r: Vec<RawSyncRecord>)
    ensures
        r@.len() == 1,
        r@[0].table_name@ == "name"@,
        r@[0].record_id@ == "C3FB3B30A8D04DDF9AF59A15BB48668A"@,
        r@[0].action == SyncAction::Upsert,
        r@[0].sequence is None,
        r@[0].data@ == "{\"ID\": \"C3FB3B30A8D04DDF9AF59A15BB48668A\", \"name\": \"Moemoe, Alex\", \"code\": \"00102/19/00\", \"customer\": true, \"supplier\": false, \"phone\": \"02345678\", \"country\": \"NZ\", \"email\": \"email@some.com\", \"type\": \"patient\", \"margin\": 0}"@,
{
    let mut r: Vec<RawSyncRecord> = Vec::new();
    r.push(
        RawSyncRecord {
            table_name: text("name"),
            record_id: text("C3FB3B30A8D04DDF9AF59A15BB48668A"),
            data: text(
                "{\"ID\": \"C3FB3B30A8D04DDF9AF59A15BB48668A\", \"name\": \"Moemoe, Alex\", \"code\": \"00102/19/00\", \"customer\": true, \"supplier\": false, \"phone\": \"02345678\", \"country\": \"NZ\", \"email\": \"email@some.com\", \"type\": \"patient\", \"margin\": 0}",
            ),
            action: SyncAction::Upsert,
            sequence: None,
        },
    );
    r
}

/// The same name as pushed back to the central server after local change 2: the fields the
/// name translator owns, written as a legacy payload.
pub fn get_test_push_name_records() -> (r: Vec<RawSyncRecord>)
    ensures
        r@.len() == 1,
        r@[0].table_name@ == "name"@,
        r@[0].record_id@ == "C3FB3B30A8D04DDF9AF59A15BB48668A"@,
        r@[0].action == SyncAction::Upsert,
        r@[0].sequence == Some(2u64),
        r@[0].data@ == json_object_text(
            seq![
                ("ID"@, "C3FB3B30A8D04DDF9AF59A15BB48668A"@),
                ("name"@, "Moemoe, Alex"@),
                ("code"@, "00102/19/00"@),
            ],
        ),
{
    let row = TypedRow::Name(
        NameRow {
            id: text("C3FB3B30A8D04DDF9AF59A15BB48668A"),
            name: text("Moemoe, Alex"),
            code: text("00102/19/00"),
        },
    );
    let fields = row.legacy_fields();
    let mut r: Vec<RawSyncRecord> = Vec::new();
    r.push(
        RawSyncRecord {
            table_name: text("name"),
            record_id: text("C3FB3B30A8D04DDF9AF59A15BB48668A"),
            data: legacy_fields_to_json(&fields),
            action: SyncAction::Upsert,
            sequence: Some(2),
        },
    );
    r
}

} // verus!
