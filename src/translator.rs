use vstd::prelude::*;
use crate::json::{field_str, field_text, field_views, json_object_fields, json_object_text, legacy_fields_to_json, parse_legacy_fields};
use crate::record::{ChangelogEntry, RawSyncRecord, SyncAction};
use crate::rows::{IntegrationOp, MasterListRow, NameRow, LegacyListMasterNameJoinRow, OpView, RowView, TypedRow, owned_keys};
use crate::store::{LocalStore, StoreView, has_key, key_index};
use crate::text::text;

verus! {

/// How a table's legacy flat record maps onto a typed local row.
#[derive(Clone, Copy, Debug, PartialEq, Eq, Structural)]
pub enum TableMapping {
    Name,
    MasterList,
    MasterListNameJoin,
}

/// The per-table translation unit: the legacy table it owns, the tables that must be
/// integrated before it, and how its records map onto typed rows.
#[derive(Debug)]
pub struct Translator {
    pub table_name: String,
    pub dependencies: Vec<String>,
    pub mapping: TableMapping,
}

impl Translator {
    pub fn new(table_name: String, dependencies: Vec<String>, mapping: TableMapping) -> (r: Self)
        ensures
            r.table_name == table_name,
            r.dependencies == dependencies,
            r.mapping == mapping,
    {
        Translator { table_name, dependencies, mapping }
    }

    /// The translator of legacy names.
    pub fn name_translation() -> (r: Self)
        ensures
            r.table_name@ == name_table(),
            r.dependencies@.len() == 0,
            r.mapping == TableMapping::Name,
    {
        Translator { table_name: text("name"), dependencies: Vec::new(), mapping: TableMapping::Name }
    }

    /// The translator of legacy master lists.
    pub fn master_list_translation() -> (r: Self)
        ensures
            r.table_name@ == master_list_table(),
            r.dependencies@.len() == 0,
            r.mapping == TableMapping::MasterList,
    {
        Translator {
            table_name: text("master_list"),
            dependencies: Vec::new(),
            mapping: TableMapping::MasterList,
        }
    }

    /// The translator of legacy master list to name joins, which need their name and their
    /// master list integrated first.
    pub fn master_list_name_join_translation() -> (r: Self)
        ensures
            r.table_name@ == "master_list_name_join"@,
            r.dependencies@.len() == 2,
            r.dependencies@[0]@ == name_table(),
            r.dependencies@[1]@ == master_list_table(),
            r.mapping == TableMapping::MasterListNameJoin,
    {
        let mut dependencies: Vec<String> = Vec::new();
        dependencies.push(text("name"));
        dependencies.push(text("master_list"));
        Translator {
            table_name: text("master_list_name_join"),
            dependencies,
            mapping: TableMapping::MasterListNameJoin,
        }
    }

    pub fn table_name(&self) -> (r: &String)
        ensures
            r == &self.table_name,
    {
        &self.table_name
    }

    pub fn pull_dependencies(&self) -> (r: &Vec<String>)
        ensures
            r == &self.dependencies,
    {
        &self.dependencies
    }
}

/// The legacy fields of a pulled record as the spec functions see them.
pub type FieldsView = Seq<(Seq<char>, Option<Seq<char>>)>;

/// The table that holds names.
pub open spec fn name_table() -> Seq<char> {
    "name"@
}

/// The table that holds master lists.
pub open spec fn master_list_table() -> Seq<char> {
    "master_list"@
}

/// What translating the fields of a pulled upsert gives; `None` is a translation error (a
/// field the mapping owns is missing or not a string).
pub open spec fn pull_upsert_view(
    table: Seq<char>,
    m: TableMapping,
    fs: FieldsView,
    store: StoreView,
) -> Option<OpView> {
    let id = field_str(fs, "ID"@);
    match m {
        TableMapping::Name => {
            let name = field_str(fs, "name"@);
            let code = field_str(fs, "code"@);
            if id is Some && name is Some && code is Some {
                Some(
                    OpView::Upsert(
                        table,
                        (m, seq![("ID"@, id->0), ("name"@, name->0), ("code"@, code->0)]),
                    ),
                )
            } else {
                None
            }
        },
        TableMapping::MasterList => {
            let description = field_str(fs, "description"@);
            let code = field_str(fs, "code"@);
            let note = field_str(fs, "note"@);
            if id is Some && description is Some && code is Some && note is Some {
                Some(
                    OpView::Upsert(
                        table,
                        (
                            m,
                            seq![
                                ("ID"@, id->0),
                                ("description"@, description->0),
                                ("code"@, code->0),
                                ("note"@, note->0),
                            ],
                        ),
                    ),
                )
            } else {
                None
            }
        },
        TableMapping::MasterListNameJoin => {
            let name_id = field_str(fs, "name_ID"@);
            let list_id = field_str(fs, "list_master_ID"@);
            if id is Some && name_id is Some && list_id is Some {
                if name_id->0.len() == 0 {
                    Some(OpView::Ignored("Missing name_id"@))
                } else if !has_key(store, name_table(), name_id->0) {
                    Some(OpView::Ignored("Missing name"@))
                } else if !has_key(store, master_list_table(), list_id->0) {
                    Some(OpView::Ignored("Missing master list"@))
                } else {
                    Some(
                        OpView::Upsert(
                            table,
                            (
                                m,
                                seq![
                                    ("ID"@, id->0),
                                    ("name_ID"@, name_id->0),
                                    ("list_master_ID"@, list_id->0),
                                ],
                            ),
                        ),
                    )
                }
            } else {
                None
            }
        },
    }
}

/// What translating a pulled record gives; `None` is a translation error.
pub open spec fn pull_record_view(
    table: Seq<char>,
    m: TableMapping,
    action: SyncAction,
    record_id: Seq<char>,
    data: Seq<char>,
    store: StoreView,
) -> Option<OpView> {
    match action {
        SyncAction::Upsert => match json_object_fields(data) {
            Some(fs) => pull_upsert_view(table, m, fs, store),
            None => None,
        },
        SyncAction::Delete => Some(OpView::Delete(table, record_id)),
    }
}

/// Why one record could not be translated.
#[derive(Debug, PartialEq, Eq)]
pub enum TranslationError {
    /// The payload is not a JSON object.
    MalformedPayload { record_id: String },
    /// A field that the table's mapping owns is missing or not a string.
    MissingField { record_id: String },
    /// The local row that a changelog entry names is gone.
    RowNotFound { row_id: String },
    /// No translator owns the record's table.
    UnknownTable { table_name: String },
}

impl Translator {
    /// Translates the legacy fields of a pulled upsert into an operation on `store`.
    pub fn translate_pull_upsert_fields(
        &self,
        fields: &Vec<(String, Option<String>)>,
        store: &LocalStore,
    ) -> (r: Option<IntegrationOp>)
        requires
            store.wf(),
        ensures
            match r {
                Some(op) => pull_upsert_view(
                    self.table_name@,
                    self.mapping,
                    field_views(fields@),
                    store.view_rows(),
                ) == Some(op@),
                None => pull_upsert_view(
                    self.table_name@,
                    self.mapping,
                    field_views(fields@),
                    store.view_rows(),
                ) is None,
            },
    {
        let id = match field_text(fields, "ID") {
            Some(id) => id,
            None => { return None; },
        };
        match self.mapping {
            TableMapping::Name => {
                let name = field_text(fields, "name");
                let code = field_text(fields, "code");
                match (name, code) {
                    (Some(name), Some(code)) => {
                        let row = TypedRow::Name(NameRow { id, name, code });
                        Some(IntegrationOp::Upsert { table_name: self.table_name.clone(), row })
                    },
                    _ => None,
                }
            },
            TableMapping::MasterList => {
                let description = field_text(fields, "description");
                let code = field_text(fields, "code");
                let note = field_text(fields, "note");
                match (description, code, note) {
                    (Some(description), Some(code), Some(note)) => {
                        let row = TypedRow::MasterList(
                            MasterListRow { id, name: description, code, description: note },
                        );
                        Some(IntegrationOp::Upsert { table_name: self.table_name.clone(), row })
                    },
                    _ => None,
                }
            },
            TableMapping::MasterListNameJoin => {
                let name_id = field_text(fields, "name_ID");
                let list_id = field_text(fields, "list_master_ID");
                match (name_id, list_id) {
                    (Some(name_id), Some(list_id)) => {
                        let legacy = LegacyListMasterNameJoinRow {
                            ID: id,
                            name_ID: name_id,
                            list_master_ID: list_id,
                        };
                        if legacy.name_ID.as_str().unicode_len() == 0 {
                            return Some(IntegrationOp::Ignored(text("Missing name_id")));
                        }
                        if !store.contains(&text("name"), &legacy.name_ID) {
                            return Some(IntegrationOp::Ignored(text("Missing name")));
                        }
                        if !store.contains(&text("master_list"), &legacy.list_master_ID) {
                            return Some(IntegrationOp::Ignored(text("Missing master list")));
                        }
                        let row = TypedRow::MasterListNameJoin(legacy.to_row());
                        Some(IntegrationOp::Upsert { table_name: self.table_name.clone(), row })
                    },
                    _ => None,
                }
            },
        }
    }

    /// Translates a pulled upsert record: parses its payload and maps its fields.
    pub fn translate_pull_upsert(&self, record: &RawSyncRecord, store: &LocalStore) -> (r: Result<
        IntegrationOp,
        TranslationError,
    >)
        requires
            store.wf(),
        ensures
            match r {
                Ok(op) => match json_object_fields(record.data@) {
                    Some(fs) => pull_upsert_view(self.table_name@, self.mapping, fs, store.view_rows())
                        == Some(op@),
                    None => false,
                },
                Err(_) => match json_object_fields(record.data@) {
                    Some(fs) => pull_upsert_view(
                        self.table_name@,
                        self.mapping,
                        fs,
                        store.view_rows(),
                    ) is None,
                    None => true,
                },
            },
            r matches Err(e) ==> e == (if json_object_fields(record.data@) is None {
                TranslationError::MalformedPayload { record_id: record.record_id }
            } else {
                TranslationError::MissingField { record_id: record.record_id }
            }),
    {
        match parse_legacy_fields(record.data.as_str()) {
            None => Err(TranslationError::MalformedPayload { record_id: record.record_id.clone() }),
            Some(fields) => match self.translate_pull_upsert_fields(&fields, store) {
                Some(op) => Ok(op),
                None => Err(TranslationError::MissingField { record_id: record.record_id.clone() }),
            },
        }
    }

    /// Translates a pulled delete record: the row with the record's id goes.
    pub fn translate_pull_delete(&self, record: &RawSyncRecord) -> (r: IntegrationOp)
        ensures
            r@ == OpView::Delete(self.table_name@, record.record_id@),
    {
        IntegrationOp::Delete { table_name: self.table_name.clone(), id: record.record_id.clone() }
    }

    /// Translates a pulled record of either action.
    pub fn translate_pull(&self, record: &RawSyncRecord, store: &LocalStore) -> (r: Result<
        IntegrationOp,
        TranslationError,
    >)
        requires
            store.wf(),
        ensures
            match r {
                Ok(op) => pull_record_view(
                    self.table_name@,
                    self.mapping,
                    record.action,
                    record.record_id@,
                    record.data@,
                    store.view_rows(),
                ) == Some(op@),
                Err(_) => pull_record_view(
                    self.table_name@,
                    self.mapping,
                    record.action,
                    record.record_id@,
                    record.data@,
                    store.view_rows(),
                ) is None,
            },
            r matches Err(e) ==> record.action == SyncAction::Upsert && e == (if json_object_fields(
                record.data@,
            ) is None {
                TranslationError::MalformedPayload { record_id: record.record_id }
            } else {
                TranslationError::MissingField { record_id: record.record_id }
            }),
    {
        match record.action {
            SyncAction::Upsert => self.translate_pull_upsert(record, store),
            SyncAction::Delete => Ok(self.translate_pull_delete(record)),
        }
    }

    /// Writes the current state of a changed local row in the legacy wire shape.
    pub fn translate_push_upsert(&self, entry: &ChangelogEntry, store: &LocalStore) -> (r: Result<
        RawSyncRecord,
        TranslationError,
    >)
        requires
            store.wf(),
        ensures
            r is Ok <==> has_key(store.view_rows(), self.table_name@, entry.row_id@),
            r matches Ok(rec) ==> {
                &&& rec.table_name@ == self.table_name@
                &&& rec.record_id@ == entry.row_id@
                &&& rec.action == SyncAction::Upsert
                &&& rec.sequence == Some(entry.sequence)
                &&& rec.data@ == json_object_text(
                    store.view_rows()[key_index(
                        store.view_rows(),
                        self.table_name@,
                        entry.row_id@,
                    )].1.1,
                )
            },
            r matches Err(e) ==> e == (TranslationError::RowNotFound { row_id: entry.row_id }),
    {
        match store.get(&self.table_name, &entry.row_id) {
            None => Err(TranslationError::RowNotFound { row_id: entry.row_id.clone() }),
            Some(row) => {
                let fields = row.legacy_fields();
                Ok(
                    RawSyncRecord {
                        table_name: self.table_name.clone(),
                        record_id: entry.row_id.clone(),
                        data: legacy_fields_to_json(&fields),
                        action: SyncAction::Upsert,
                        sequence: Some(entry.sequence),
                    },
                )
            },
        }
    }

    /// Writes a local deletion in the legacy wire shape.
    pub fn translate_push_delete(&self, entry: &ChangelogEntry) -> (r: RawSyncRecord)
        ensures
            r.table_name@ == self.table_name@,
            r.record_id@ == entry.row_id@,
            r.data@ == Seq::<char>::empty(),
            r.action == SyncAction::Delete,
            r.sequence == Some(entry.sequence),
    {
        RawSyncRecord {
            table_name: self.table_name.clone(),
            record_id: entry.row_id.clone(),
            data: String::new(),
            action: SyncAction::Delete,
            sequence: Some(entry.sequence),
        }
    }
}

/// A row pulled from legacy fields is pushed back with the same value in every field its
/// mapping owns: its view lists exactly the owned fields, each with the pulled value, and
/// the pushed payload is written from that view.
pub proof fn lemma_pull_push_round_trip(
    table: Seq<char>,
    m: TableMapping,
    fs: FieldsView,
    store: StoreView,
    row: RowView,
)
    requires
        pull_upsert_view(table, m, fs, store) == Some(OpView::Upsert(table, row)),
    ensures
        row.0 == m,
        row.1.len() == owned_keys(m).len(),
        forall|i: int|
            0 <= i < row.1.len() ==> row.1[i].0 == owned_keys(m)[i] && field_str(
                fs,
                owned_keys(m)[i],
            ) == Some(#[trigger] row.1[i].1),
{
}

/// Integrating a pulled upsert stores exactly the pulled row under its key, so a push of
/// that key reads back the row whose fields carry the pulled values.
pub proof fn lemma_integrated_row_is_pushed(
    table: Seq<char>,
    m: TableMapping,
    fs: FieldsView,
    store: StoreView,
    row: RowView,
)
    requires
        crate::store::keys_unique(store),
        pull_upsert_view(table, m, fs, store) == Some(OpView::Upsert(table, row)),
    ensures
        ({
            let after = crate::store::apply_op(store, OpView::Upsert(table, row));
            &&& has_key(after, table, crate::rows::row_id(row))
            &&& after[key_index(after, table, crate::rows::row_id(row))] == (table, row)
        }),
{
    let id = crate::rows::row_id(row);
    let after = crate::store::apply_op(store, OpView::Upsert(table, row));
    crate::store::lemma_apply_keeps_keys_unique(store, OpView::Upsert(table, row));
    let i = key_index(store, table, id);
    let j = if i >= 0 { i } else { store.len() as int };
    assert(after[j] == (table, row));
    assert(has_key(after, table, id));
    let k = key_index(after, table, id);
    assert(k == j);
}

} // verus!
