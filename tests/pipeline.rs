use sync_engine::push::{AckStatus, PushAck, MAX_PUSH_REJECTIONS};
use sync_engine::record::{PullBatch, RawSyncRecord, SyncAction};
use sync_engine::registry::{DependencyGraphError, TranslatorRegistry};
use sync_engine::rows::{IntegrationOp, MasterListNameJoinRow, NameRow, TypedRow};
use sync_engine::store::LocalStore;
use sync_engine::remote::{remote_pull_step, RemotePullStep};
use sync_engine::synchroniser::{CentralSyncError, PullAction, PullStep, Synchroniser};
use sync_engine::translator::{TableMapping, TranslationError, Translator};

fn s(v: &str) -> String {
    v.to_string()
}

fn upsert(table: &str, id: &str, data: &str) -> RawSyncRecord {
    RawSyncRecord { table_name: s(table), record_id: s(id), data: s(data), action: SyncAction::Upsert, sequence: None }
}

fn registry_of(decls: Vec<(&str, Vec<&str>)>) -> TranslatorRegistry {
    let mut r = TranslatorRegistry::new();
    for (name, deps) in decls {
        r.register(Translator::new(s(name), deps.into_iter().map(s).collect(), TableMapping::Name)).unwrap();
    }
    r
}

fn names(v: &[&str]) -> Vec<String> {
    v.iter().map(|x| s(x)).collect()
}

#[test]
fn duplicate_registration_is_refused() {
    let mut r = TranslatorRegistry::new();
    r.register(Translator::name_translation()).unwrap();
    let err = r.register(Translator::name_translation()).unwrap_err();
    assert_eq!(err.table_name, "name");
    assert_eq!(r.translators().len(), 1);
}

#[test]
fn dependencies_come_first_and_ties_go_by_name() {
    let r = TranslatorRegistry::all_translators();
    let order = r.resolve_order(&names(&["master_list_name_join", "name", "master_list", "name"])).unwrap();
    assert_eq!(order, names(&["master_list", "name", "master_list_name_join"]));
}

#[test]
fn unregistered_tables_are_left_out_of_the_order() {
    let r = TranslatorRegistry::all_translators();
    let order = r.resolve_order(&names(&["name", "stocktake"])).unwrap();
    assert_eq!(order, names(&["name"]));
}

#[test]
fn chain_is_ordered_against_the_alphabet() {
    let r = registry_of(vec![("a", vec!["b"]), ("b", vec!["c"]), ("c", vec![]), ("d", vec![])]);
    let order = r.resolve_order(&names(&["a", "b", "c", "d"])).unwrap();
    assert_eq!(order, names(&["c", "b", "a", "d"]));
}

#[test]
fn cycle_is_a_dependency_graph_error() {
    let r = registry_of(vec![("a", vec!["b"]), ("b", vec!["a"]), ("c", vec![])]);
    assert!(matches!(r.resolve_order(&names(&["a", "b", "c"])), Err(DependencyGraphError::Cycle)));
    // Only the present tables count: without "b" there is no cycle.
    assert_eq!(r.resolve_order(&names(&["a", "c"])).unwrap(), names(&["a", "c"]));
}

#[test]
fn dependency_on_unregistered_table_is_an_error() {
    let r = registry_of(vec![("a", vec!["ghost"])]);
    match r.resolve_order(&names(&["a"])) {
        Err(DependencyGraphError::MissingDependency { table_name, dependency }) => {
            assert_eq!(table_name, "a");
            assert_eq!(dependency, "ghost");
        }
        other => panic!("unexpected {:?}", other),
    }
}

#[test]
fn applying_an_operation_twice_equals_once() {
    let op = || IntegrationOp::Upsert {
        table_name: s("name"),
        row: TypedRow::Name(NameRow { id: s("N1"), name: s("A"), code: s("C") }),
    };
    let mut once = LocalStore::new();
    once.apply(op());
    let mut twice = LocalStore::new();
    twice.apply(op());
    twice.apply(op());
    assert_eq!(twice.len(), 1);
    assert_eq!(once.get(&s("name"), &s("N1")), twice.get(&s("name"), &s("N1")));
    let del = || IntegrationOp::Delete { table_name: s("name"), id: s("N1") };
    twice.apply(del());
    twice.apply(del());
    assert_eq!(twice.len(), 0);
}

fn scenario_batch() -> PullBatch {
    PullBatch {
        records: vec![
            upsert("master_list_name_join", "J1", r#"{"ID": "J1", "name_ID": "N1", "list_master_ID": "M1"}"#),
            upsert("name", "N1", r#"{"ID": "N1", "name": "Alex", "code": "A1"}"#),
        ],
        cursor_after_batch: 2,
        remaining_count: 0,
    }
}

#[test]
fn join_with_absent_master_list_is_ignored_and_cursor_advances() {
    let mut sync = Synchroniser::new(TranslatorRegistry::all_translators());
    sync.stage_batch(scenario_batch()).unwrap();
    let summary = sync.integrate_staged().unwrap();
    assert_eq!(summary.order, names(&["name", "master_list_name_join"]));
    assert!(summary.failed_record_ids.is_empty());
    assert_eq!(summary.cursor, 2);
    assert_eq!(sync.pull_cursor(), 2);
    assert_eq!(sync.staged_len(), 0);
    assert_eq!(
        sync.store().get(&s("name"), &s("N1")),
        Some(&TypedRow::Name(NameRow { id: s("N1"), name: s("Alex"), code: s("A1") }))
    );
    assert_eq!(sync.store().get(&s("master_list_name_join"), &s("J1")), None);
}

#[test]
fn join_integrates_after_its_name_and_list_in_one_batch() {
    let mut sync = Synchroniser::new(TranslatorRegistry::all_translators());
    let mut batch = scenario_batch();
    batch.records.push(upsert("master_list", "M1", r#"{"ID": "M1", "description": "L", "code": "L1", "note": ""}"#));
    sync.stage_batch(batch).unwrap();
    let summary = sync.integrate_staged().unwrap();
    assert_eq!(summary.order, names(&["master_list", "name", "master_list_name_join"]));
    assert_eq!(
        sync.store().get(&s("master_list_name_join"), &s("J1")),
        Some(&TypedRow::MasterListNameJoin(MasterListNameJoinRow { id: s("J1"), master_list_id: s("M1"), name_id: s("N1") }))
    );
    assert_eq!(sync.store().len(), 3);
}

#[test]
fn bad_record_is_reported_and_the_rest_integrates() {
    let mut sync = Synchroniser::new(TranslatorRegistry::all_translators());
    let batch = PullBatch {
        records: vec![
            upsert("name", "N1", r#"{"ID": "N1", "name": "Alex", "code": "A1"}"#),
            upsert("name", "N2", "garbage"),
            upsert("unknown_table", "X1", "{}"),
        ],
        cursor_after_batch: 7,
        remaining_count: 3,
    };
    sync.stage_batch(batch).unwrap();
    let summary = sync.integrate_staged().unwrap();
    assert_eq!(summary.failed_record_ids, names(&["N2"]));
    assert_eq!(summary.order, names(&["name"]));
    assert_eq!(sync.store().len(), 1);
    assert_eq!(sync.pull_cursor(), 7);
}

#[test]
fn regressing_cursor_is_refused_and_nothing_changes() {
    let mut sync = Synchroniser::new(TranslatorRegistry::all_translators());
    sync.stage_batch(scenario_batch()).unwrap();
    sync.integrate_staged().unwrap();
    let back = PullBatch { records: vec![], cursor_after_batch: 1, remaining_count: 0 };
    assert!(matches!(sync.stage_batch(back), Err(CentralSyncError::CursorRegressed { cursor: 2, cursor_after_batch: 1 })));
    assert_eq!(sync.pull_cursor(), 2);
}

#[test]
fn dependency_error_aborts_without_applying() {
    let r = registry_of(vec![("a", vec!["b"]), ("b", vec!["a"])]);
    let mut sync = Synchroniser::new(r);
    let batch = PullBatch {
        records: vec![upsert("a", "1", r#"{"ID": "1", "name": "x", "code": "y"}"#), upsert("b", "2", "{}")],
        cursor_after_batch: 5,
        remaining_count: 0,
    };
    sync.stage_batch(batch).unwrap();
    assert!(matches!(sync.integrate_staged(), Err(CentralSyncError::DependencyGraph(DependencyGraphError::Cycle))));
    assert_eq!(sync.pull_cursor(), 0);
    assert_eq!(sync.staged_len(), 2);
    assert_eq!(sync.store().len(), 0);
}

#[test]
fn interrupted_pull_resumes_to_the_same_state() {
    let mut straight = Synchroniser::new(TranslatorRegistry::all_translators());
    straight.stage_batch(scenario_batch()).unwrap();
    let a = straight.integrate_staged().unwrap();

    let mut resumed = Synchroniser::new(TranslatorRegistry::all_translators());
    resumed.stage_batch(scenario_batch()).unwrap();
    // Interrupted here: the cursor has not moved and the batch is still staged.
    assert_eq!(resumed.pull_cursor(), 0);
    // The restart fetches from the persisted cursor and stages the same batch again.
    assert_eq!(resumed.next_pull_action(PullStep::Start), PullAction::Fetch { cursor: 0 });
    resumed.stage_batch(scenario_batch()).unwrap();
    assert_eq!(resumed.staged_len(), 2);
    let b = resumed.integrate_staged().unwrap();

    assert_eq!(a.order, b.order);
    assert_eq!(straight.pull_cursor(), resumed.pull_cursor());
    assert_eq!(straight.store().len(), resumed.store().len());
    assert_eq!(straight.store().get(&s("name"), &s("N1")), resumed.store().get(&s("name"), &s("N1")));
}

fn ack(sequence: u64, status: AckStatus) -> PushAck {
    PushAck { sequence, status }
}

#[test]
fn push_cursor_stops_at_the_first_unacknowledged_change() {
    let mut sync = Synchroniser::new(TranslatorRegistry::all_translators());
    for id in ["N1", "N2", "N3"] {
        sync.notify_row_changed(s("name"), s(id), SyncAction::Delete).unwrap();
    }
    let batch = sync.prepare_push_batch(10).records;
    assert_eq!(batch.len(), 3);
    assert_eq!(batch[0].sequence, Some(1));
    assert_eq!(batch[2].record_id, "N3");
    sync.acknowledge_push(&vec![ack(1, AckStatus::Ack), ack(2, AckStatus::Reject), ack(3, AckStatus::Ack)]);
    assert_eq!(sync.push_log().cursor(), 1);
    assert_eq!(sync.push_log().pending_len(), 2);
    // Only the rejected change is pushed again.
    let again = sync.prepare_push_batch(10).records;
    assert_eq!(again.len(), 1);
    assert_eq!(again[0].sequence, Some(2));
    sync.acknowledge_push(&vec![ack(2, AckStatus::Ack)]);
    assert_eq!(sync.push_log().cursor(), 3);
    assert_eq!(sync.push_log().pending_len(), 0);
}

#[test]
fn repeated_rejection_becomes_a_permanent_failure() {
    let mut sync = Synchroniser::new(TranslatorRegistry::all_translators());
    sync.notify_row_changed(s("name"), s("N1"), SyncAction::Delete).unwrap();
    for _ in 0..MAX_PUSH_REJECTIONS {
        assert_eq!(sync.prepare_push_batch(5).records.len(), 1);
        sync.acknowledge_push(&vec![ack(1, AckStatus::Reject)]);
    }
    assert_eq!(sync.push_log().permanent_failures(), vec![1]);
    assert!(sync.prepare_push_batch(5).records.is_empty());
    assert_eq!(sync.push_log().cursor(), 0);
    assert_eq!(sync.push_log().next_push_batch(5).len(), 0);
}

#[test]
fn push_batch_is_limited_and_in_sequence_order() {
    let mut sync = Synchroniser::new(TranslatorRegistry::all_translators());
    for id in ["A", "B", "C"] {
        sync.notify_row_changed(s("name"), s(id), SyncAction::Delete).unwrap();
    }
    let batch = sync.push_log().next_push_batch(2);
    assert_eq!(batch.len(), 2);
    assert_eq!(batch[0].row_id, "A");
    assert_eq!(batch[1].row_id, "B");
}

#[test]
fn push_of_missing_row_or_unknown_table_fails() {
    let mut sync = Synchroniser::new(TranslatorRegistry::all_translators());
    sync.notify_row_changed(s("name"), s("N1"), SyncAction::Upsert).unwrap();
    let batch = sync.prepare_push_batch(5);
    assert!(batch.records.is_empty());
    assert_eq!(batch.failures[0].sequence, 1);
    let mut other = Synchroniser::new(TranslatorRegistry::all_translators());
    other.notify_row_changed(s("stocktake"), s("S1"), SyncAction::Delete).unwrap();
    assert_eq!(other.prepare_push_batch(5).failures.len(), 1);
}

#[test]
fn pushed_upsert_carries_the_current_row() {
    let mut sync = Synchroniser::new(TranslatorRegistry::all_translators());
    sync.stage_batch(scenario_batch()).unwrap();
    sync.integrate_staged().unwrap();
    sync.notify_row_changed(s("name"), s("N1"), SyncAction::Upsert).unwrap();
    let batch = sync.prepare_push_batch(5).records;
    let data: std::collections::BTreeMap<String, String> = serde_json::from_str(&batch[0].data).unwrap();
    assert_eq!(data.get("name").map(|x| x.as_str()), Some("Alex"));
    assert_eq!(data.get("ID").map(|x| x.as_str()), Some("N1"));
}

#[test]
fn test_integrate_central_records() {
    // Records of several tables, listed out of dependency order.
    let mut records = vec![
        upsert("master_list_name_join", "J1", r#"{"ID": "J1", "name_ID": "C3FB3B30A8D04DDF9AF59A15BB48668A", "list_master_ID": "M1"}"#),
        upsert("master_list", "M1", r#"{"ID": "M1", "description": "General", "code": "G", "note": ""}"#),
    ];
    records.append(&mut sync_engine::test_data::get_test_name_records());
    let mut sync = Synchroniser::new(TranslatorRegistry::all_translators());
    sync.stage_batch(PullBatch { records, cursor_after_batch: 3, remaining_count: 0 })
        .expect("Failed to insert central sync records into sync buffer");
    let summary = sync.integrate_staged().expect("Failed to integrate central records");
    assert!(summary.failed_record_ids.is_empty());
    assert_eq!(sync.store().len(), 3);
    assert_eq!(
        sync.store().get(&s("master_list_name_join"), &s("J1")),
        Some(&TypedRow::MasterListNameJoin(MasterListNameJoinRow {
            id: s("J1"),
            master_list_id: s("M1"),
            name_id: s("C3FB3B30A8D04DDF9AF59A15BB48668A"),
        }))
    );
}

#[test]
fn staging_never_drops_staged_records() {
    let mut sync = Synchroniser::new(TranslatorRegistry::all_translators());
    sync.stage_batch(scenario_batch()).unwrap();
    let newer = PullBatch {
        records: vec![upsert("name", "N1", r#"{"ID": "N1", "name": "Alexa", "code": "A1"}"#), upsert("name", "N2", "{}")],
        cursor_after_batch: 9,
        remaining_count: 0,
    };
    sync.stage_batch(newer).unwrap();
    // J1 stays; N1 is replaced by its newer copy; N2 follows.
    assert_eq!(sync.staged_len(), 3);
    assert_eq!(sync.staged()[0].record_id, "J1");
    assert_eq!(sync.staged()[1].record_id, "N1");
    assert!(sync.staged()[1].data.contains("Alexa"));
    assert_eq!(sync.staged()[2].record_id, "N2");
    assert_eq!(sync.staged_cursor(), Some(9));
}

#[test]
fn staging_a_batch_twice_equals_once() {
    let mut once = Synchroniser::new(TranslatorRegistry::all_translators());
    once.stage_batch(scenario_batch()).unwrap();
    let mut twice = Synchroniser::new(TranslatorRegistry::all_translators());
    twice.stage_batch(scenario_batch()).unwrap();
    twice.stage_batch(scenario_batch()).unwrap();
    assert_eq!(once.staged(), twice.staged());
}

#[test]
fn pull_actions_follow_the_pipeline() {
    let mut sync = Synchroniser::new(TranslatorRegistry::all_translators());
    assert_eq!(sync.next_pull_action(PullStep::Start), PullAction::Fetch { cursor: 0 });
    sync.stage_batch(scenario_batch()).unwrap();
    assert_eq!(sync.next_pull_action(PullStep::Staged { remaining: 0 }), PullAction::Integrate);
    sync.integrate_staged().unwrap();
    assert_eq!(sync.next_pull_action(PullStep::Integrated { remaining: 0 }), PullAction::Done);
    assert_eq!(sync.next_pull_action(PullStep::Integrated { remaining: 4 }), PullAction::Fetch { cursor: 2 });
}

#[test]
fn restore_refuses_inconsistent_state_and_fetches_from_the_persisted_cursor() {
    let reg = || TranslatorRegistry::all_translators();
    assert!(Synchroniser::restore(reg(), LocalStore::new(), vec![], Some(1), 2).is_none());
    assert!(Synchroniser::restore(reg(), LocalStore::new(), scenario_batch().records, None, 2).is_none());
    let mut sync = Synchroniser::restore(reg(), LocalStore::new(), scenario_batch().records, Some(2), 0).unwrap();
    assert_eq!(sync.next_pull_action(PullStep::Start), PullAction::Fetch { cursor: 0 });
    sync.stage_batch(scenario_batch()).unwrap();
    assert_eq!(sync.staged_len(), 2);
    sync.integrate_staged().unwrap();
    assert_eq!(sync.pull_cursor(), 2);
    assert_eq!(sync.store().len(), 1);
}

#[test]
fn untranslatable_change_is_rejected_without_blocking_others() {
    let mut sync = Synchroniser::new(TranslatorRegistry::all_translators());
    sync.notify_row_changed(s("name"), s("GONE"), SyncAction::Upsert).unwrap();
    sync.notify_row_changed(s("name"), s("N2"), SyncAction::Delete).unwrap();
    let batch = sync.prepare_push_batch(5);
    assert_eq!(batch.records.len(), 1);
    assert_eq!(batch.records[0].sequence, Some(2));
    let mut acks = batch.rejections();
    assert_eq!(acks, vec![PushAck { sequence: 1, status: AckStatus::Reject }]);
    acks.push(ack(2, AckStatus::Ack));
    sync.acknowledge_push(&acks);
    assert_eq!(sync.push_log().cursor(), 0);
    assert_eq!(sync.push_log().pending_len(), 2);
}

#[test]
fn push_continues_only_on_progress() {
    let mut sync = Synchroniser::new(TranslatorRegistry::all_translators());
    sync.notify_row_changed(s("name"), s("N1"), SyncAction::Delete).unwrap();
    assert!(!sync.push_should_continue(0, 0));
    sync.acknowledge_push(&vec![ack(1, AckStatus::Ack)]);
    assert!(sync.push_should_continue(0, 1));
    assert!(!sync.push_should_continue(1, 1));
}

#[test]
fn push_errors_name_their_cause() {
    let mut sync = Synchroniser::new(TranslatorRegistry::all_translators());
    sync.notify_row_changed(s("stocktake"), s("S1"), SyncAction::Delete).unwrap();
    let err = &sync.prepare_push_batch(5).failures[0];
    assert_eq!(err.error, TranslationError::UnknownTable { table_name: s("stocktake") });
    let mut other = Synchroniser::new(TranslatorRegistry::all_translators());
    other.notify_row_changed(s("name"), s("N7"), SyncAction::Upsert).unwrap();
    assert_eq!(other.prepare_push_batch(5).failures[0].error, TranslationError::RowNotFound { row_id: s("N7") });
}

#[test]
fn registry_declares_join_dependencies() {
    let r = TranslatorRegistry::all_translators();
    let t = r.translators();
    assert_eq!(t.len(), 3);
    assert!(t[0].dependencies.is_empty());
    assert_eq!(t[2].dependencies, names(&["name", "master_list"]));
}

#[test]
fn remote_pull_gathers_and_acknowledges() {
    let mut gathered = vec![upsert("name", "N1", "{}")];
    let step = remote_pull_step(&mut gathered, 3, Some(vec![upsert("name", "N2", "{}")]));
    assert_eq!(step, RemotePullStep { acknowledge: true, pull_again: true });
    assert_eq!(gathered.len(), 2);
    let step = remote_pull_step(&mut gathered, 0, None);
    assert_eq!(step, RemotePullStep { acknowledge: false, pull_again: false });
    assert_eq!(gathered.len(), 2);
}
