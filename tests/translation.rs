use sync_engine::record::{ChangelogEntry, RawSyncRecord, SyncAction};
use sync_engine::rows::{
    IntegrationOp, LegacyListMasterNameJoinRow, MasterListNameJoinRow, MasterListRow, NameRow,
    TypedRow,
};
use sync_engine::store::LocalStore;
use sync_engine::test_data::{get_test_name_records, get_test_push_name_records};
use sync_engine::translator::{TableMapping, TranslationError, Translator};

fn record(table: &str, id: &str, data: &str, action: SyncAction) -> RawSyncRecord {
    RawSyncRecord {
        table_name: table.to_string(),
        record_id: id.to_string(),
        data: data.to_string(),
        action,
        sequence: None,
    }
}

fn name_row(id: &str) -> TypedRow {
    TypedRow::Name(NameRow { id: id.to_string(), name: "Name".to_string(), code: "C".to_string() })
}

fn list_row(id: &str) -> TypedRow {
    TypedRow::MasterList(MasterListRow {
        id: id.to_string(),
        name: "List".to_string(),
        code: "L".to_string(),
        description: "".to_string(),
    })
}

fn store_with(rows: Vec<(&str, TypedRow)>) -> LocalStore {
    let mut store = LocalStore::new();
    for (table, row) in rows {
        store.apply(IntegrationOp::Upsert { table_name: table.to_string(), row });
    }
    store
}

#[test]
fn name_record_translates_to_name_row() {
    let store = LocalStore::new();
    let records = get_test_name_records();
    let op = Translator::name_translation().translate_pull_upsert(&records[0], &store).unwrap();
    assert_eq!(
        op,
        IntegrationOp::Upsert {
            table_name: "name".to_string(),
            row: TypedRow::Name(NameRow {
                id: "C3FB3B30A8D04DDF9AF59A15BB48668A".to_string(),
                name: "Moemoe, Alex".to_string(),
                code: "00102/19/00".to_string(),
            }),
        }
    );
}

#[test]
fn master_list_fields_map_to_row() {
    let store = LocalStore::new();
    let rec = record(
        "master_list",
        "M1",
        r#"{"ID": "M1", "description": "Essential", "code": "E1", "note": "main list"}"#,
        SyncAction::Upsert,
    );
    let op = Translator::master_list_translation().translate_pull_upsert(&rec, &store).unwrap();
    assert_eq!(
        op,
        IntegrationOp::Upsert {
            table_name: "master_list".to_string(),
            row: TypedRow::MasterList(MasterListRow {
                id: "M1".to_string(),
                name: "Essential".to_string(),
                code: "E1".to_string(),
                description: "main list".to_string(),
            }),
        }
    );
}

#[test]
fn malformed_payload_is_a_translation_error() {
    let store = LocalStore::new();
    let rec = record("name", "N1", "{not json", SyncAction::Upsert);
    let r = Translator::name_translation().translate_pull_upsert(&rec, &store);
    assert_eq!(r, Err(TranslationError::MalformedPayload { record_id: "N1".to_string() }));
}

#[test]
fn missing_or_non_string_field_is_a_translation_error() {
    let store = LocalStore::new();
    let rec = record("name", "N1", r#"{"ID": "N1", "name": "A"}"#, SyncAction::Upsert);
    let r = Translator::name_translation().translate_pull_upsert(&rec, &store);
    assert_eq!(r, Err(TranslationError::MissingField { record_id: "N1".to_string() }));
    let rec = record("name", "N1", r#"{"ID": "N1", "name": "A", "code": 7}"#, SyncAction::Upsert);
    let r = Translator::name_translation().translate_pull_upsert(&rec, &store);
    assert_eq!(r, Err(TranslationError::MissingField { record_id: "N1".to_string() }));
}

#[test]
fn test_master_list_name_join_translation() {
    let translator = Translator::master_list_name_join_translation();
    let store = store_with(vec![("name", name_row("N1")), ("master_list", list_row("M1"))]);
    let rec = record(
        "master_list_name_join",
        "J1",
        r#"{"ID": "J1", "name_ID": "N1", "list_master_ID": "M1"}"#,
        SyncAction::Upsert,
    );
    let op = translator.translate_pull_upsert(&rec, &store).unwrap();
    assert_eq!(
        op,
        IntegrationOp::Upsert {
            table_name: "master_list_name_join".to_string(),
            row: TypedRow::MasterListNameJoin(MasterListNameJoinRow {
                id: "J1".to_string(),
                master_list_id: "M1".to_string(),
                name_id: "N1".to_string(),
            }),
        }
    );
    let del = record("master_list_name_join", "J1", "", SyncAction::Delete);
    assert_eq!(
        translator.translate_pull(&del, &store).unwrap(),
        IntegrationOp::Delete { table_name: "master_list_name_join".to_string(), id: "J1".to_string() }
    );
}

#[test]
fn join_without_name_id_is_ignored() {
    let translator = Translator::master_list_name_join_translation();
    let store = store_with(vec![("name", name_row("N1")), ("master_list", list_row("M1"))]);
    let rec = record(
        "master_list_name_join",
        "J1",
        r#"{"ID": "J1", "name_ID": "", "list_master_ID": "M1"}"#,
        SyncAction::Upsert,
    );
    let op = translator.translate_pull_upsert(&rec, &store).unwrap();
    assert_eq!(op, IntegrationOp::Ignored("Missing name_id".to_string()));
}

#[test]
fn join_with_absent_master_list_is_ignored() {
    let translator = Translator::master_list_name_join_translation();
    let store = store_with(vec![("name", name_row("N1"))]);
    let rec = record(
        "master_list_name_join",
        "J1",
        r#"{"ID": "J1", "name_ID": "N1", "list_master_ID": "M1"}"#,
        SyncAction::Upsert,
    );
    let op = translator.translate_pull_upsert(&rec, &store).unwrap();
    assert_eq!(op, IntegrationOp::Ignored("Missing master list".to_string()));
    let empty = LocalStore::new();
    let op = translator.translate_pull_upsert(&rec, &empty).unwrap();
    assert_eq!(op, IntegrationOp::Ignored("Missing name".to_string()));
}

#[test]
fn legacy_join_row_maps_fields() {
    let legacy = LegacyListMasterNameJoinRow {
        ID: "J1".to_string(),
        name_ID: "N1".to_string(),
        list_master_ID: "M1".to_string(),
    };
    assert_eq!(
        legacy.to_row(),
        MasterListNameJoinRow {
            id: "J1".to_string(),
            master_list_id: "M1".to_string(),
            name_id: "N1".to_string(),
        }
    );
}

fn fields_of(data: &str) -> std::collections::BTreeMap<String, serde_json::Value> {
    serde_json::from_str(data).unwrap()
}

#[test]
fn pull_then_push_keeps_owned_fields() {
    let translator = Translator::master_list_translation();
    let data = r#"{"ID": "M1", "description": "Essential", "code": "E1", "note": "n", "extra": 3}"#;
    let mut store = LocalStore::new();
    let op = translator.translate_pull_upsert(&record("master_list", "M1", data, SyncAction::Upsert), &store).unwrap();
    store.apply(op);
    let entry = ChangelogEntry {
        sequence: 9,
        table_name: "master_list".to_string(),
        row_id: "M1".to_string(),
        action: SyncAction::Upsert,
    };
    let pushed = translator.translate_push_upsert(&entry, &store).unwrap();
    assert_eq!(pushed.table_name, "master_list");
    assert_eq!(pushed.record_id, "M1");
    assert_eq!(pushed.sequence, Some(9));
    let original = fields_of(data);
    let back = fields_of(&pushed.data);
    for key in ["ID", "description", "code", "note"] {
        assert_eq!(back.get(key), original.get(key), "field {}", key);
    }
    assert_eq!(back.len(), 4);
}

#[test]
fn push_upsert_of_missing_row_fails_and_delete_has_no_payload() {
    let translator = Translator::name_translation();
    let store = LocalStore::new();
    let entry = ChangelogEntry {
        sequence: 1,
        table_name: "name".to_string(),
        row_id: "N9".to_string(),
        action: SyncAction::Upsert,
    };
    assert_eq!(
        translator.translate_push_upsert(&entry, &store),
        Err(TranslationError::RowNotFound { row_id: "N9".to_string() })
    );
    let del = translator.translate_push_delete(&entry);
    assert_eq!(del.data, "");
    assert_eq!(del.action, SyncAction::Delete);
    assert_eq!(del.sequence, Some(1));
}

#[test]
fn custom_translator_keeps_its_declaration() {
    let t = Translator::new("unit".to_string(), vec!["item".to_string()], TableMapping::Name);
    assert_eq!(t.table_name(), "unit");
    assert_eq!(t.pull_dependencies(), &vec!["item".to_string()]);
}

#[test]
fn pushed_name_fixture_holds_owned_fields() {
    let pushed = get_test_push_name_records();
    assert_eq!(pushed.len(), 1);
    assert_eq!(pushed[0].sequence, Some(2));
    let data: std::collections::BTreeMap<String, String> = serde_json::from_str(&pushed[0].data).unwrap();
    assert_eq!(data.get("name").map(|x| x.as_str()), Some("Moemoe, Alex"));
    assert_eq!(data.get("code").map(|x| x.as_str()), Some("00102/19/00"));
    assert_eq!(data.len(), 3);
}
