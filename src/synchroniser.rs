use vstd::prelude::*;
use crate::json::json_object_text;
use crate::pull::{integrate_table_records, integrate_tables, record_tables, table_names, translator_for};
use crate::push::{PushAck, PushLog, first_n, pushable_entries, record_acks, leading_acknowledged};
use crate::record::{ChangelogEntry, PullBatch, RawSyncRecord, SyncAction};
use crate::registry::{
    DependencyGraphError, TranslatorRegistry, depends_on, has_cycle, has_missing_dependency, is_registered,
    is_resolved_order, names_of, present_tables, lemma_cycle_has_no_order,
};
use crate::store::{LocalStore, StoreView, has_key, key_index};
use crate::staging::{key_in, restage, restage_records, lemma_restage_keeps, lemma_restage_idempotent};
use crate::translator::TranslationError;

verus! {

/// Batch-level failures of the pull pipeline; each leaves all durable state as it was.
#[derive(Debug)]
pub enum CentralSyncError {
    /// The transport answered with a cursor behind the persisted one.
    CursorRegressed { cursor: u64, cursor_after_batch: u64 },
    /// The staged tables cannot be ordered for integration.
    DependencyGraph(DependencyGraphError),
}

/// The last step a pull run took.
#[derive(Clone, Copy, Debug, PartialEq, Eq, Structural)]
pub enum PullStep {
    /// Nothing yet in this run.
    Start,
    /// A batch was fetched and staged; the transport reported this many records remaining.
    Staged { remaining: u64 },
    /// The staged batch was integrated.
    Integrated { remaining: u64 },
}

/// The next step of the pull pipeline.
#[derive(Clone, Copy, Debug, PartialEq, Eq, Structural)]
pub enum PullAction {
    /// Fetch a batch from the transport starting at this cursor.
    Fetch { cursor: u64 },
    /// Integrate the staged batch.
    Integrate,
    /// Nothing remains to be pulled.
    Done,
}

/// A changelog entry that cannot be written in the legacy wire shape.
#[derive(Debug)]
pub struct RemoteSyncError {
    pub sequence: u64,
    pub error: TranslationError,
}

#[derive(Debug)]
pub enum SyncError {
    CentralSyncError(CentralSyncError),
    RemoteSyncError(RemoteSyncError),
}

/// What one integrated pull batch did.
#[derive(Debug)]
pub struct PullSummary {
    /// The order in which the staged tables were integrated.
    pub order: Vec<String>,
    /// The records that failed translation and were left out.
    pub failed_record_ids: Vec<String>,
    /// The pull cursor after the batch.
    pub cursor: u64,
}

/// The pushed form of a changelog entry: `None` when no translator owns its table, or
/// when the row of an upsert is gone from the store.
pub open spec fn push_translatable(
    ts: Seq<crate::translator::Translator>,
    store: StoreView,
    e: ChangelogEntry,
) -> bool {
    is_registered(ts, e.table_name@) && (e.action == SyncAction::Delete || has_key(
        store,
        e.table_name@,
        e.row_id@,
    ))
}

/// Why entry `e` cannot be pushed, when it cannot.
pub open spec fn push_error(ts: Seq<crate::translator::Translator>, e: ChangelogEntry) -> TranslationError {
    if !is_registered(ts, e.table_name@) {
        TranslationError::UnknownTable { table_name: e.table_name }
    } else {
        TranslationError::RowNotFound { row_id: e.row_id }
    }
}

/// The entries that can be pushed, in order.
pub open spec fn translatable_entries(
    ts: Seq<crate::translator::Translator>,
    store: StoreView,
    es: Seq<ChangelogEntry>,
) -> Seq<ChangelogEntry>
    decreases es.len(),
{
    if es.len() == 0 {
        Seq::empty()
    } else if push_translatable(ts, store, es.last()) {
        translatable_entries(ts, store, es.drop_last()).push(es.last())
    } else {
        translatable_entries(ts, store, es.drop_last())
    }
}

/// The entries that cannot be pushed, in order.
pub open spec fn failing_entries(
    ts: Seq<crate::translator::Translator>,
    store: StoreView,
    es: Seq<ChangelogEntry>,
) -> Seq<ChangelogEntry>
    decreases es.len(),
{
    if es.len() == 0 {
        Seq::empty()
    } else if !push_translatable(ts, store, es.last()) {
        failing_entries(ts, store, es.drop_last()).push(es.last())
    } else {
        failing_entries(ts, store, es.drop_last())
    }
}

/// A push batch: the translated records, and the changes that could not be translated.
#[derive(Debug)]
pub struct PushBatch {
    pub records: Vec<RawSyncRecord>,
    pub failures: Vec<RemoteSyncError>,
}

impl PushBatch {
    /// The failures as rejections, so that they count against the retry bound like a
    /// rejection by the central server.
    pub fn rejections(&self) -> (r: Vec<PushAck>)
        ensures
            r@.len() == self.failures@.len(),
            forall|i: int|
                0 <= i < r@.len() ==> #[trigger] r@[i] == (PushAck {
                    sequence: self.failures@[i].sequence,
                    status: crate::push::AckStatus::Reject,
                }),
    {
        let mut r: Vec<PushAck> = Vec::new();
        let mut i: usize = 0;
        while i < self.failures.len()
            invariant
                i <= self.failures@.len(),
                r@.len() == i,
                forall|k: int|
                    0 <= k < i ==> #[trigger] r@[k] == (PushAck {
                        sequence: self.failures@[k].sequence,
                        status: crate::push::AckStatus::Reject,
                    }),
            decreases self.failures@.len() - i,
        {
            r.push(PushAck { sequence: self.failures[i].sequence, status: crate::push::AckStatus::Reject });
            i = i + 1;
        }
        r
    }
}

/// `rec` is the legacy wire form of entry `e`.
pub open spec fn is_push_record(store: StoreView, e: ChangelogEntry, rec: RawSyncRecord) -> bool {
    &&& rec.table_name@ == e.table_name@
    &&& rec.record_id@ == e.row_id@
    &&& rec.action == e.action
    &&& rec.sequence == Some(e.sequence)
    &&& rec.data@ == match e.action {
        SyncAction::Upsert => json_object_text(
            store[key_index(store, e.table_name@, e.row_id@)].1.1,
        ),
        SyncAction::Delete => Seq::<char>::empty(),
    }
}

/// `after` is `before` with `batch` staged.
pub open spec fn staged_from(before: Synchroniser, batch: PullBatch, after: Synchroniser) -> bool {
    &&& after.spec_staged() == restage(before.spec_staged(), batch.records@)
    &&& after.spec_staged_cursor() == Some(batch.cursor_after_batch)
    &&& after.spec_pull_cursor() == before.spec_pull_cursor()
    &&& after.spec_store() == before.spec_store()
    &&& after.spec_registry() == before.spec_registry()
    &&& after.spec_push() == before.spec_push()
}

/// `after` is `before` with its staged records integrated in `order`, the records in
/// `failed` having failed translation.
pub open spec fn integrated(
    before: Synchroniser,
    order: Seq<Seq<char>>,
    failed: Seq<Seq<char>>,
    after: Synchroniser,
) -> bool {
    let ts = before.spec_registry().spec_translators();
    let present = present_tables(ts, record_tables(before.spec_staged()));
    &&& is_resolved_order(ts, present, order)
    &&& (after.spec_store(), failed) == integrate_tables(
        ts,
        order,
        before.spec_staged(),
        (before.spec_store(), Seq::empty()),
    )
    &&& after.spec_pull_cursor() == match before.spec_staged_cursor() {
        Some(c) => c,
        None => before.spec_pull_cursor(),
    }
    &&& after.spec_staged().len() == 0
    &&& after.spec_staged_cursor() is None
    &&& after.spec_registry() == before.spec_registry()
    &&& after.spec_push() == before.spec_push()
}

/// The synchronisation context: translators, local store, staging buffer, cursors and
/// changelog of one site.
pub struct Synchroniser {
    registry: TranslatorRegistry,
    store: LocalStore,
    staged: Vec<RawSyncRecord>,
    staged_cursor: Option<u64>,
    pull_cursor: u64,
    push: PushLog,
}

impl Synchroniser {
    pub closed spec fn spec_registry(&self) -> TranslatorRegistry {
        self.registry
    }

    pub closed spec fn spec_store(&self) -> StoreView {
        self.store.view_rows()
    }

    pub closed spec fn spec_staged(&self) -> Seq<RawSyncRecord> {
        self.staged@
    }

    pub closed spec fn spec_staged_cursor(&self) -> Option<u64> {
        self.staged_cursor
    }

    pub closed spec fn spec_pull_cursor(&self) -> u64 {
        self.pull_cursor
    }

    pub closed spec fn spec_push(&self) -> PushLog {
        self.push
    }

    pub closed spec fn wf(&self) -> bool {
        &&& self.registry.wf()
        &&& self.store.wf()
        &&& self.push.wf()
        &&& (self.staged_cursor matches Some(c) ==> c >= self.pull_cursor)
        &&& (self.staged_cursor is None ==> self.staged@.len() == 0)
    }

    pub fn new(registry: TranslatorRegistry) -> (r: Self)
        requires
            registry.wf(),
        ensures
            r.wf(),
            r.spec_registry() == registry,
            r.spec_store().len() == 0,
            r.spec_staged().len() == 0,
            r.spec_staged_cursor() is None,
            r.spec_pull_cursor() == 0,
            r.spec_push().spec_pending().len() == 0,
            r.spec_push().spec_cursor() == 0,
            r.spec_push().spec_next_sequence() == 1,
            r.spec_push().spec_acknowledged() == Set::<u64>::empty(),
    {
        Synchroniser {
            registry,
            store: LocalStore::new(),
            staged: Vec::new(),
            staged_cursor: None,
            pull_cursor: 0,
            push: PushLog::new(),
        }
    }

    /// Rebuilds the context from persisted state; `None` when that state is inconsistent:
    /// a staged cursor behind the pull cursor, or staged records without a staged cursor.
    pub fn restore(
        registry: TranslatorRegistry,
        store: LocalStore,
        staged: Vec<RawSyncRecord>,
        staged_cursor: Option<u64>,
        pull_cursor: u64,
    ) -> (r: Option<Self>)
        requires
            registry.wf(),
            store.wf(),
        ensures
            r is Some <==> (match staged_cursor {
                Some(c) => c >= pull_cursor,
                None => staged@.len() == 0,
            }),
            r matches Some(s) ==> {
                &&& s.wf()
                &&& s.spec_registry() == registry
                &&& s.spec_store() == store.view_rows()
                &&& s.spec_staged() == staged@
                &&& s.spec_staged_cursor() == staged_cursor
                &&& s.spec_pull_cursor() == pull_cursor
                &&& s.spec_push().spec_pending().len() == 0
                &&& s.spec_push().spec_cursor() == 0
            },
    {
        let consistent = match staged_cursor {
            Some(c) => c >= pull_cursor,
            None => staged.len() == 0,
        };
        if !consistent {
            return None;
        }
        Some(Synchroniser { registry, store, staged, staged_cursor, pull_cursor, push: PushLog::new() })
    }

    /// Whether another push round is worth making: the last round sent changes and moved
    /// the push cursor; rejected changes wait for the next cycle.
    pub fn push_should_continue(&self, cursor_before: u64, pushed: usize) -> (r: bool)
        ensures
            r == (pushed > 0 && self.spec_push().spec_cursor() > cursor_before),
    {
        pushed > 0 && self.push.cursor() > cursor_before
    }

    /// Where the next pull starts.
    pub fn pull_cursor(&self) -> (r: u64)
        ensures
            r == self.spec_pull_cursor(),
    {
        self.pull_cursor
    }

    pub fn store(&self) -> (r: &LocalStore)
        requires
            self.wf(),
        ensures
            r.wf(),
            r.view_rows() == self.spec_store(),
    {
        &self.store
    }

    pub fn staged_len(&self) -> (r: usize)
        ensures
            r == self.spec_staged().len(),
    {
        self.staged.len()
    }

    pub fn push_log(&self) -> (r: &PushLog)
        requires
            self.wf(),
        ensures
            r.wf(),
            *r == self.spec_push(),
    {
        &self.push
    }

    /// Stages a batch fetched from the pull cursor. A staged record stays until it is
    /// integrated, unless the batch holds a newer copy of the same row, which takes its
    /// place; so a batch fetched again after an interruption stages the same records again.
    pub fn stage_batch(&mut self, batch: PullBatch) -> (r: Result<(), CentralSyncError>)
        requires
            old(self).wf(),
        ensures
            final(self).wf(),
            r is Err <==> batch.cursor_after_batch < old(self).spec_pull_cursor(),
            r is Err ==> *final(self) == *old(self),
            r is Ok ==> staged_from(*old(self), batch, *final(self)),
            forall|i: int|
                0 <= i < old(self).spec_staged().len() ==> final(self).spec_staged().contains(
                    old(self).spec_staged()[i],
                ) || key_in(batch.records@, old(self).spec_staged()[i]),
    {
        if batch.cursor_after_batch < self.pull_cursor {
            return Err(
                CentralSyncError::CursorRegressed {
                    cursor: self.pull_cursor,
                    cursor_after_batch: batch.cursor_after_batch,
                },
            );
        }
        let ghost before = self.staged@;
        let ghost records = batch.records@;
        let staged = restage_records(&self.staged, batch.records);
        self.staged = staged;
        self.staged_cursor = Some(batch.cursor_after_batch);
        proof {
            assert forall|i: int|
                0 <= i < before.len() && !key_in(records, before[i]) implies self.staged@.contains(
                before[i],
            ) by {
                lemma_restage_keeps(before, records, i);
            }
        }
        Ok(())
    }

    /// What the pull pipeline does next, given the last step of this run: a run starts by
    /// fetching from the persisted pull cursor, a staged batch is integrated, and fetching
    /// goes on while the last batch reported more remaining.
    pub fn next_pull_action(&self, last: PullStep) -> (r: PullAction)
        ensures
            r == (match last {
                PullStep::Start => PullAction::Fetch { cursor: self.spec_pull_cursor() },
                PullStep::Staged { .. } => PullAction::Integrate,
                PullStep::Integrated { remaining } => if remaining == 0 {
                    PullAction::Done
                } else {
                    PullAction::Fetch { cursor: self.spec_pull_cursor() }
                },
            }),
    {
        match last {
            PullStep::Start => PullAction::Fetch { cursor: self.pull_cursor },
            PullStep::Staged { .. } => PullAction::Integrate,
            PullStep::Integrated { remaining } => if remaining == 0 {
                PullAction::Done
            } else {
                PullAction::Fetch { cursor: self.pull_cursor }
            },
        }
    }

    /// The staged records, in staging order.
    pub fn staged(&self) -> (r: &Vec<RawSyncRecord>)
        ensures
            r@ == self.spec_staged(),
    {
        &self.staged
    }

    /// The cursor that integrating the staged batch will persist.
    pub fn staged_cursor(&self) -> (r: Option<u64>)
        ensures
            r == self.spec_staged_cursor(),
    {
        self.staged_cursor
    }

    /// Integrates the staged records: orders their registered tables, translates and
    /// applies each table's records in staging order, then advances the pull cursor and
    /// empties the staging buffer. Records of unregistered tables are ignored; records that
    /// fail translation are reported and left out.
    pub fn integrate_staged(&mut self) -> (r: Result<PullSummary, CentralSyncError>)
        requires
            old(self).wf(),
        ensures
            final(self).wf(),
            ({
                let ts = old(self).spec_registry().spec_translators();
                let present = present_tables(ts, record_tables(old(self).spec_staged()));
                &&& r is Err <==> (has_missing_dependency(ts, present) || has_cycle(ts, present))
                &&& r is Err ==> *final(self) == *old(self)
                &&& r matches Err(e) ==> match e {
                    CentralSyncError::DependencyGraph(DependencyGraphError::Cycle) => has_cycle(
                        ts,
                        present,
                    ),
                    CentralSyncError::DependencyGraph(
                        DependencyGraphError::MissingDependency { table_name, dependency },
                    ) => present.contains(table_name@) && depends_on(ts, table_name@, dependency@)
                        && !is_registered(ts, dependency@),
                    _ => false,
                }
                &&& r matches Ok(summary) ==> integrated(
                    *old(self),
                    names_of(summary.order@),
                    names_of(summary.failed_record_ids@),
                    *final(self),
                ) && summary.cursor == final(self).spec_pull_cursor()
            }),
            final(self).spec_pull_cursor() >= old(self).spec_pull_cursor(),
    {
        let ghost ts = self.registry.spec_translators();
        let ghost staged = self.staged@;
        let names = table_names(&self.staged);
        proof {
            assert(present_tables(ts, names@) =~= present_tables(ts, record_tables(staged)));
        }
        let order = match self.registry.resolve_order(&names) {
            Ok(order) => order,
            Err(e) => {
                return Err(CentralSyncError::DependencyGraph(e));
            },
        };
        proof {
            let present = present_tables(ts, names@);
            if has_cycle(ts, present) {
                lemma_cycle_has_no_order(ts, present, names_of(order@));
            }
        }
        let ghost start = (self.store.view_rows(), Seq::<Seq<char>>::empty());
        let mut failed: Vec<String> = Vec::new();
        let mut i: usize = 0;
        proof {
            assert(names_of(failed@) =~= Seq::<Seq<char>>::empty());
            assert(names_of(order@).take(0) =~= Seq::<Seq<char>>::empty());
        }
        while i < order.len()
            invariant
                ts == self.registry.spec_translators(),
                self.registry == old(self).registry,
                self.registry.wf(),
                self.store.wf(),
                self.push == old(self).push,
                self.push.wf(),
                self.staged_cursor == old(self).staged_cursor,
                self.pull_cursor == old(self).pull_cursor,
                self.staged_cursor matches Some(c) ==> c >= self.pull_cursor,
                self.staged_cursor is None ==> self.staged@.len() == 0,
                staged == self.staged@,
                i <= order@.len(),
                is_resolved_order(ts, present_tables(ts, names@), names_of(order@)),
                forall|n: Seq<char>|
                    present_tables(ts, names@).contains(n) ==> is_registered(ts, n),
                (self.store.view_rows(), names_of(failed@)) == integrate_tables(
                    ts,
                    names_of(order@).take(i as int),
                    staged,
                    start,
                ),
            decreases order@.len() - i,
        {
            proof {
                let o = names_of(order@);
                assert(o.take(i + 1).drop_last() =~= o.take(i as int));
                assert(o.take(i + 1).last() == order@[i as int]@);
                assert(o[i as int] == order@[i as int]@);
                assert(present_tables(ts, names@).contains(o[i as int]));
            }
            match self.registry.find(&order[i]) {
                Some(idx) => {
                    let translator = &self.registry.translators()[idx];
                    proof {
                        let t = order@[i as int]@;
                        let c = choose|c: int| 0 <= c < ts.len() && ts[c].table_name@ == t;
                        assert(c == idx);
                        assert(translator_for(ts, t) == *translator);
                    }
                    integrate_table_records(translator, &self.staged, &mut self.store, &mut failed);
                },
                None => {},
            }
            i = i + 1;
        }
        proof {
            assert(names_of(order@).take(i as int) =~= names_of(order@));
        }
        let cursor = match self.staged_cursor {
            Some(c) => c,
            None => self.pull_cursor,
        };
        self.pull_cursor = cursor;
        self.staged = Vec::new();
        self.staged_cursor = None;
        Ok(PullSummary { order, failed_record_ids: failed, cursor })
    }

    /// Records a local change of a synchronised row for the push pipeline.
    pub fn notify_row_changed(&mut self, table_name: String, row_id: String, action: SyncAction) -> (r:
        Option<u64>)
        requires
            old(self).wf(),
        ensures
            final(self).wf(),
            r is Some <==> old(self).spec_push().spec_next_sequence() < u64::MAX,
            r matches Some(s) ==> s == old(self).spec_push().spec_next_sequence(),
            final(self).spec_push().spec_cursor() == old(self).spec_push().spec_cursor(),
            final(self).spec_store() == old(self).spec_store(),
            final(self).spec_pull_cursor() == old(self).spec_pull_cursor(),
            r is Some ==> final(self).spec_push().spec_pending() == old(
                self,
            ).spec_push().spec_pending().push(
                crate::push::PendingChange {
                    entry: ChangelogEntry { sequence: r->0, table_name, row_id, action },
                    acknowledged: false,
                    rejections: 0,
                },
            ),
            r is None ==> final(self).spec_push() == old(self).spec_push(),
    {
        self.push.notify_row_changed(table_name, row_id, action)
    }

    /// Writes one changelog entry in the legacy wire shape, reading the row's current state.
    pub fn translate_push_entry(&self, entry: &ChangelogEntry) -> (r: Result<
        RawSyncRecord,
        TranslationError,
    >)
        requires
            self.wf(),
        ensures
            r is Ok <==> push_translatable(
                self.spec_registry().spec_translators(),
                self.spec_store(),
                *entry,
            ),
            r matches Ok(rec) ==> is_push_record(self.spec_store(), *entry, rec),
            r matches Err(e) ==> e == push_error(self.spec_registry().spec_translators(), *entry),
    {
        match self.registry.find(&entry.table_name) {
            None => Err(TranslationError::UnknownTable { table_name: entry.table_name.clone() }),
            Some(idx) => {
                let translator = &self.registry.translators()[idx];
                match entry.action {
                    SyncAction::Upsert => translator.translate_push_upsert(entry, &self.store),
                    SyncAction::Delete => Ok(translator.translate_push_delete(entry)),
                }
            },
        }
    }

    /// The next push batch in the legacy wire shape: the first `limit` pushable changes in
    /// sequence order. A change that cannot be translated is reported among the failures
    /// rather than holding back the others.
    pub fn prepare_push_batch(&self, limit: usize) -> (r: PushBatch)
        requires
            self.wf(),
        ensures
            ({
                let entries = first_n(pushable_entries(self.spec_push().spec_pending()), limit as nat);
                let ts = self.spec_registry().spec_translators();
                let ok = translatable_entries(ts, self.spec_store(), entries);
                let bad = failing_entries(ts, self.spec_store(), entries);
                &&& r.records@.len() == ok.len()
                &&& forall|i: int|
                    0 <= i < ok.len() ==> is_push_record(
                        self.spec_store(),
                        #[trigger] ok[i],
                        r.records@[i],
                    )
                &&& r.failures@.len() == bad.len()
                &&& forall|i: int|
                    0 <= i < bad.len() ==> (#[trigger] r.failures@[i]).sequence == bad[i].sequence
                        && r.failures@[i].error == push_error(ts, bad[i])
            }),
    {
        let ghost ts = self.registry.spec_translators();
        let ghost st = self.store.view_rows();
        let entries = self.push.next_push_batch(limit);
        let mut records: Vec<RawSyncRecord> = Vec::new();
        let mut failures: Vec<RemoteSyncError> = Vec::new();
        let mut i: usize = 0;
        proof {
            assert(entries@.take(0) =~= Seq::<ChangelogEntry>::empty());
        }
        while i < entries.len()
            invariant
                self.wf(),
                ts == self.spec_registry().spec_translators(),
                st == self.spec_store(),
                i <= entries@.len(),
                records@.len() == translatable_entries(ts, st, entries@.take(i as int)).len(),
                forall|k: int|
                    0 <= k < records@.len() ==> is_push_record(
                        st,
                        #[trigger] translatable_entries(ts, st, entries@.take(i as int))[k],
                        records@[k],
                    ),
                failures@.len() == failing_entries(ts, st, entries@.take(i as int)).len(),
                forall|k: int|
                    0 <= k < failures@.len() ==> (#[trigger] failures@[k]).sequence
                        == failing_entries(ts, st, entries@.take(i as int))[k].sequence
                        && failures@[k].error == push_error(
                        ts,
                        failing_entries(ts, st, entries@.take(i as int))[k],
                    ),
            decreases entries@.len() - i,
        {
            let ghost prefix = entries@.take(i as int);
            proof {
                assert(entries@.take(i + 1).drop_last() =~= prefix);
                assert(entries@.take(i + 1).last() == entries@[i as int]);
            }
            match self.translate_push_entry(&entries[i]) {
                Ok(rec) => {
                    records.push(rec);
                },
                Err(error) => {
                    failures.push(RemoteSyncError { sequence: entries[i].sequence, error });
                },
            }
            i = i + 1;
        }
        proof {
            assert(entries@.take(i as int) =~= entries@);
        }
        PushBatch { records, failures }
    }

    /// Records the central server's answers to a push batch and advances the push cursor
    /// over the acknowledged changes at the front of the changelog.
    pub fn acknowledge_push(&mut self, acks: &Vec<PushAck>)
        requires
            old(self).wf(),
        ensures
            final(self).wf(),
            ({
                let p = old(self).spec_push();
                let marked = record_acks(p.spec_pending(), p.spec_cursor(), acks@);
                let k = leading_acknowledged(marked);
                &&& final(self).spec_push().spec_pending() == marked.skip(k as int)
                &&& final(self).spec_push().spec_cursor() == p.spec_cursor() + k
            }),
            forall|s: u64| #[trigger]
                final(self).spec_push().spec_acknowledged().contains(s) ==> old(
                    self,
                ).spec_push().spec_acknowledged().contains(s) || exists|j: int|
                    0 <= j < acks@.len() && acks@[j].sequence == s && acks@[j].status
                        == crate::push::AckStatus::Ack,
            final(self).spec_store() == old(self).spec_store(),
            final(self).spec_pull_cursor() == old(self).spec_pull_cursor(),
    {
        self.push.acknowledge(acks);
    }
}

/// Integration is determined by the state it starts from: two integrations of the same
/// staged records, into the same store, with the same registry and cursors, use the same
/// order and end with the same store, failures and cursor.
pub proof fn lemma_integration_deterministic(
    a: Synchroniser,
    a_order: Seq<Seq<char>>,
    a_failed: Seq<Seq<char>>,
    a_after: Synchroniser,
    b: Synchroniser,
    b_order: Seq<Seq<char>>,
    b_failed: Seq<Seq<char>>,
    b_after: Synchroniser,
)
    requires
        integrated(a, a_order, a_failed, a_after),
        integrated(b, b_order, b_failed, b_after),
        a.spec_staged() == b.spec_staged(),
        a.spec_staged_cursor() == b.spec_staged_cursor(),
        a.spec_pull_cursor() == b.spec_pull_cursor(),
        a.spec_store() == b.spec_store(),
        a.spec_registry() == b.spec_registry(),
    ensures
        a_order == b_order,
        a_failed == b_failed,
        a_after.spec_store() == b_after.spec_store(),
        a_after.spec_pull_cursor() == b_after.spec_pull_cursor(),
        a_after.spec_staged() == b_after.spec_staged(),
        a_after.spec_staged_cursor() == b_after.spec_staged_cursor(),
{
    let ts = a.spec_registry().spec_translators();
    let present = present_tables(ts, record_tables(a.spec_staged()));
    crate::registry::lemma_resolved_order_unique(ts, present, a_order, b_order);
    assert(a_after.spec_staged() =~= b_after.spec_staged());
}

/// A pull cycle interrupted after staging and before the cursor advanced resumes without
/// loss: the persisted cursor has not moved, so the restart fetches from the same position;
/// staging the same batch again gives back the staged state of the uninterrupted run; and
/// integrating it ends in the same store, cursor, staging buffer and failures.
pub proof fn lemma_resume_after_interruption(
    before: Synchroniser,
    batch: PullBatch,
    staged: Synchroniser,
    order: Seq<Seq<char>>,
    failed: Seq<Seq<char>>,
    done: Synchroniser,
    interrupted: Synchroniser,
    restarted: Synchroniser,
    resumed_order: Seq<Seq<char>>,
    resumed_failed: Seq<Seq<char>>,
    resumed: Synchroniser,
)
    requires
        staged_from(before, batch, staged),
        integrated(staged, order, failed, done),
        staged_from(before, batch, interrupted),
        staged_from(interrupted, batch, restarted),
        integrated(restarted, resumed_order, resumed_failed, resumed),
    ensures
        interrupted.spec_pull_cursor() == before.spec_pull_cursor(),
        restarted.spec_staged() == staged.spec_staged(),
        resumed.spec_store() == done.spec_store(),
        resumed.spec_pull_cursor() == done.spec_pull_cursor(),
        resumed.spec_staged() == done.spec_staged(),
        resumed_failed == failed,
{
    lemma_restage_idempotent(before.spec_staged(), batch.records@);
    lemma_integration_deterministic(
        restarted,
        resumed_order,
        resumed_failed,
        resumed,
        staged,
        order,
        failed,
        done,
    );
}

} // verus!
