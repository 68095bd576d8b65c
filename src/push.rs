use vstd::prelude::*;
use crate::record::{ChangelogEntry, SyncAction};

verus! {

/// How many times the central server may reject a change before it needs an operator.
pub const MAX_PUSH_REJECTIONS: u64 = 3;

/// The central server's answer for one pushed record.
#[derive(Clone, Copy, Debug, PartialEq, Eq, Structural)]
pub enum AckStatus {
    Ack,
    Reject,
}

#[derive(Clone, Copy, Debug, PartialEq, Eq, Structural)]
pub struct PushAck {
    pub sequence: u64,
    pub status: AckStatus,
}

/// A changelog entry that has not been compacted yet.
#[derive(Debug)]
pub struct PendingChange {
    pub entry: ChangelogEntry,
    pub acknowledged: bool,
    pub rejections: u64,
}

/// Whether a pending change goes into the next push batch: not acknowledged yet and not
/// given up on.
pub open spec fn pushable(p: PendingChange) -> bool {
    !p.acknowledged && p.rejections < MAX_PUSH_REJECTIONS
}

/// The entries of the pushable changes, in sequence order.
pub open spec fn pushable_entries(s: Seq<PendingChange>) -> Seq<ChangelogEntry>
    decreases s.len(),
{
    if s.len() == 0 {
        Seq::empty()
    } else if pushable(s.last()) {
        pushable_entries(s.drop_last()).push(s.last().entry)
    } else {
        pushable_entries(s.drop_last())
    }
}

/// The sequences of the changes that reached the rejection bound, in sequence order.
pub open spec fn failed_sequences(s: Seq<PendingChange>) -> Seq<u64>
    decreases s.len(),
{
    if s.len() == 0 {
        Seq::empty()
    } else if !s.last().acknowledged && s.last().rejections >= MAX_PUSH_REJECTIONS {
        failed_sequences(s.drop_last()).push(s.last().entry.sequence)
    } else {
        failed_sequences(s.drop_last())
    }
}

/// The first `n` elements, or all of them when there are fewer.
pub open spec fn first_n<A>(s: Seq<A>, n: nat) -> Seq<A> {
    if s.len() <= n {
        s
    } else {
        s.take(n as int)
    }
}

/// The pending changes after recording one answer: the change with that sequence becomes
/// acknowledged, or counts one more rejection; answers for other sequences change nothing.
pub open spec fn record_ack(s: Seq<PendingChange>, cursor: u64, ack: PushAck) -> Seq<PendingChange> {
    let i = ack.sequence - cursor - 1;
    if 0 <= i < s.len() {
        let p = s[i];
        match ack.status {
            AckStatus::Ack => s.update(
                i,
                PendingChange { entry: p.entry, acknowledged: true, rejections: p.rejections },
            ),
            AckStatus::Reject => if p.acknowledged || p.rejections == u64::MAX {
                s
            } else {
                s.update(
                    i,
                    PendingChange {
                        entry: p.entry,
                        acknowledged: false,
                        rejections: (p.rejections + 1) as u64,
                    },
                )
            },
        }
    } else {
        s
    }
}

pub open spec fn record_acks(s: Seq<PendingChange>, cursor: u64, acks: Seq<PushAck>) -> Seq<
    PendingChange,
>
    decreases acks.len(),
{
    if acks.len() == 0 {
        s
    } else {
        record_ack(record_acks(s, cursor, acks.drop_last()), cursor, acks.last())
    }
}

/// How many changes at the front are acknowledged.
pub open spec fn leading_acknowledged(s: Seq<PendingChange>) -> nat
    decreases s.len(),
{
    if s.len() > 0 && s[0].acknowledged {
        1 + leading_acknowledged(s.drop_first())
    } else {
        0
    }
}

/// The changelog and the push cursor: the highest sequence up to which every change has
/// been acknowledged by the central server.
pub struct PushLog {
    pending: Vec<PendingChange>,
    cursor: u64,
    next_sequence: u64,
    acknowledged: Ghost<Set<u64>>,
}

impl PushLog {
    pub closed spec fn spec_pending(&self) -> Seq<PendingChange> {
        self.pending@
    }

    pub closed spec fn spec_cursor(&self) -> u64 {
        self.cursor
    }

    pub closed spec fn spec_next_sequence(&self) -> u64 {
        self.next_sequence
    }

    /// Every sequence the central server has ever acknowledged.
    pub closed spec fn spec_acknowledged(&self) -> Set<u64> {
        self.acknowledged@
    }

    pub closed spec fn wf(&self) -> bool {
        &&& self.next_sequence as int == self.cursor + 1 + self.pending@.len()
        &&& forall|i: int|
            0 <= i < self.pending@.len() ==> (#[trigger] self.pending@[i]).entry.sequence
                == self.cursor + 1 + i
        &&& forall|s: u64| 1 <= s <= self.cursor ==> self.acknowledged@.contains(s)
        &&& forall|i: int|
            0 <= i < self.pending@.len() && (#[trigger] self.pending@[i]).acknowledged
                ==> self.acknowledged@.contains(self.pending@[i].entry.sequence)
        &&& self.pending@.len() == 0 || !self.pending@[0].acknowledged
    }

    pub fn new() -> (r: Self)
        ensures
            r.wf(),
            r.spec_pending().len() == 0,
            r.spec_cursor() == 0,
            r.spec_next_sequence() == 1,
            r.spec_acknowledged() == Set::<u64>::empty(),
    {
        PushLog { pending: Vec::new(), cursor: 0, next_sequence: 1, acknowledged: Ghost(Set::empty()) }
    }

    pub fn cursor(&self) -> (r: u64)
        ensures
            r == self.spec_cursor(),
    {
        self.cursor
    }

    pub fn pending_len(&self) -> (r: usize)
        ensures
            r == self.spec_pending().len(),
    {
        self.pending.len()
    }

    /// Appends a change of a synchronised row with the next sequence; `None` once the
    /// sequence space is used up.
    pub fn notify_row_changed(&mut self, table_name: String, row_id: String, action: SyncAction) -> (r:
        Option<u64>)
        requires
            old(self).wf(),
        ensures
            final(self).wf(),
            r is Some <==> old(self).spec_next_sequence() < u64::MAX,
            final(self).spec_cursor() == old(self).spec_cursor(),
            final(self).spec_acknowledged() == old(self).spec_acknowledged(),
            match r {
                Some(s) => {
                    &&& s == old(self).spec_next_sequence()
                    &&& final(self).spec_next_sequence() == s + 1
                    &&& final(self).spec_pending() == old(self).spec_pending().push(
                        PendingChange {
                            entry: ChangelogEntry { sequence: s, table_name, row_id, action },
                            acknowledged: false,
                            rejections: 0,
                        },
                    )
                },
                None => *final(self) == *old(self),
            },
    {
        if self.next_sequence == u64::MAX {
            return None;
        }
        let s = self.next_sequence;
        self.pending.push(
            PendingChange {
                entry: ChangelogEntry { sequence: s, table_name, row_id, action },
                acknowledged: false,
                rejections: 0,
            },
        );
        self.next_sequence = s + 1;
        Some(s)
    }

    /// The next changes to push: the first `limit` pending changes that are neither
    /// acknowledged nor given up on, in sequence order.
    pub fn next_push_batch(&self, limit: usize) -> (r: Vec<ChangelogEntry>)
        ensures
            r@ == first_n(pushable_entries(self.spec_pending()), limit as nat),
    {
        let ghost all = self.pending@;
        let mut r: Vec<ChangelogEntry> = Vec::new();
        let mut i: usize = 0;
        proof {
            assert(all.take(0) =~= Seq::<PendingChange>::empty());
        }
        while i < self.pending.len()
            invariant
                all == self.pending@,
                i <= all.len(),
                r@ == first_n(pushable_entries(all.take(i as int)), limit as nat),
            decreases all.len() - i,
        {
            let p = &self.pending[i];
            proof {
                assert(all.take(i + 1).drop_last() =~= all.take(i as int));
                assert(all.take(i + 1).last() == all[i as int]);
            }
            if !p.acknowledged && p.rejections < MAX_PUSH_REJECTIONS && r.len() < limit {
                r.push(p.entry.duplicate());
            }
            proof {
                let before = pushable_entries(all.take(i as int));
                if pushable(all[i as int]) && before.len() >= limit {
                    assert(before.push(all[i as int].entry).take(limit as int) =~= first_n(
                        before,
                        limit as nat,
                    ));
                }
            }
            i = i + 1;
        }
        assert(all.take(i as int) =~= all);
        r
    }

    /// The sequences of the changes rejected too often, which need an operator.
    pub fn permanent_failures(&self) -> (r: Vec<u64>)
        ensures
            r@ == failed_sequences(self.spec_pending()),
    {
        let ghost all = self.pending@;
        let mut r: Vec<u64> = Vec::new();
        let mut i: usize = 0;
        proof {
            assert(all.take(0) =~= Seq::<PendingChange>::empty());
        }
        while i < self.pending.len()
            invariant
                all == self.pending@,
                i <= all.len(),
                r@ == failed_sequences(all.take(i as int)),
            decreases all.len() - i,
        {
            let p = &self.pending[i];
            proof {
                assert(all.take(i + 1).drop_last() =~= all.take(i as int));
                assert(all.take(i + 1).last() == all[i as int]);
            }
            if !p.acknowledged && p.rejections >= MAX_PUSH_REJECTIONS {
                r.push(p.entry.sequence);
            }
            i = i + 1;
        }
        assert(all.take(i as int) =~= all);
        r
    }

    /// Records the central server's answers, then compacts: the cursor moves over the
    /// acknowledged changes at the front, which are removed.
    pub fn acknowledge(&mut self, acks: &Vec<PushAck>)
        requires
            old(self).wf(),
        ensures
            final(self).wf(),
            ({
                let marked = record_acks(old(self).spec_pending(), old(self).spec_cursor(), acks@);
                let k = leading_acknowledged(marked);
                &&& final(self).spec_pending() == marked.skip(k as int)
                &&& final(self).spec_cursor() == old(self).spec_cursor() + k
            }),
            final(self).spec_next_sequence() == old(self).spec_next_sequence(),
            forall|s: u64| #[trigger]
                final(self).spec_acknowledged().contains(s) ==> old(
                    self,
                ).spec_acknowledged().contains(s) || exists|j: int|
                    0 <= j < acks@.len() && acks@[j].sequence == s && acks@[j].status
                        == AckStatus::Ack,
    {
        let ghost p0 = self.pending@;
        let ghost a0 = self.acknowledged@;
        let c0 = self.cursor;
        let mut j: usize = 0;
        proof {
            assert(acks@.take(0) =~= Seq::<PushAck>::empty());
        }
        while j < acks.len()
            invariant
                self.cursor == c0,
                self.next_sequence == old(self).next_sequence,
                self.next_sequence as int == c0 + 1 + p0.len(),
                j <= acks@.len(),
                self.pending@.len() == p0.len(),
                self.pending@ == record_acks(p0, c0, acks@.take(j as int)),
                forall|i: int|
                    0 <= i < self.pending@.len() ==> (#[trigger] self.pending@[i]).entry.sequence
                        == c0 + 1 + i,
                forall|i: int|
                    0 <= i < self.pending@.len() && (#[trigger] self.pending@[i]).acknowledged
                        ==> self.acknowledged@.contains(self.pending@[i].entry.sequence),
                forall|s: u64| 1 <= s <= c0 ==> self.acknowledged@.contains(s),
                forall|s: u64| #[trigger]
                    self.acknowledged@.contains(s) ==> a0.contains(s) || exists|jj: int|
                        0 <= jj < j && acks@[jj].sequence == s && acks@[jj].status
                            == AckStatus::Ack,
            decreases acks@.len() - j,
        {
            let a = acks[j];
            proof {
                assert(acks@.take(j + 1).drop_last() =~= acks@.take(j as int));
                assert(acks@.take(j + 1).last() == a);
            }
            if a.sequence > self.cursor && a.sequence - self.cursor - 1 < self.pending.len() as u64 {
                let i = (a.sequence - self.cursor - 1) as usize;
                let acknowledged = self.pending[i].acknowledged;
                let rejections = self.pending[i].rejections;
                match a.status {
                    AckStatus::Ack => {
                        let entry = self.pending[i].entry.duplicate();
                        self.pending.set(
                            i,
                            PendingChange { entry, acknowledged: true, rejections },
                        );
                        self.acknowledged = Ghost(self.acknowledged@.insert(a.sequence));
                    },
                    AckStatus::Reject => {
                        if !acknowledged && rejections < u64::MAX {
                            let entry = self.pending[i].entry.duplicate();
                            self.pending.set(
                                i,
                                PendingChange { entry, acknowledged: false, rejections: rejections + 1 },
                            );
                        }
                    },
                }
            }
            proof {
                assert forall|s: u64| #[trigger]
                    self.acknowledged@.contains(s) implies a0.contains(s) || exists|jj: int|
                        0 <= jj < j + 1 && acks@[jj].sequence == s && acks@[jj].status
                            == AckStatus::Ack by {
                    if !a0.contains(s) && s != a.sequence {
                        let jj = choose|jj: int|
                            0 <= jj < j && acks@[jj].sequence == s && acks@[jj].status
                                == AckStatus::Ack;
                    }
                    if !a0.contains(s) && s == a.sequence && a.status == AckStatus::Ack {
                        assert(acks@[j as int].sequence == s);
                    }
                }
            }
            j = j + 1;
        }
        proof {
            assert(acks@.take(j as int) =~= acks@);
        }
        let ghost marked = self.pending@;
        let mut k: usize = 0;
        while k < self.pending.len() && self.pending[k].acknowledged
            invariant
                self.pending@ == marked,
                k <= marked.len(),
                forall|m: int| 0 <= m < k ==> (#[trigger] marked[m]).acknowledged,
            decreases marked.len() - k,
        {
            k = k + 1;
        }
        proof {
            lemma_leading_acknowledged(marked, k as int);
        }
        let rest = self.pending.split_off(k);
        self.pending = rest;
        self.cursor = c0 + k as u64;
        proof {
            assert(self.pending@ =~= marked.skip(k as int));
            assert forall|s: u64| 1 <= s <= self.cursor implies self.acknowledged@.contains(s) by {
                if s > c0 {
                    let m = s - c0 - 1;
                    assert(marked[m].acknowledged);
                    assert(marked[m].entry.sequence == s);
                }
            }
            assert forall|i: int|
                0 <= i < self.pending@.len() && (#[trigger] self.pending@[i]).acknowledged
                    implies self.acknowledged@.contains(self.pending@[i].entry.sequence) by {
                assert(self.pending@[i] == marked[i + k]);
            }
            assert forall|i: int| 0 <= i < self.pending@.len() implies (
            #[trigger] self.pending@[i]).entry.sequence == self.cursor + 1 + i by {
                assert(self.pending@[i] == marked[i + k]);
            }
        }
    }
}

impl PushLog {
    /// The push cursor never passes a change that the central server has not acknowledged:
    /// every sequence up to the cursor is acknowledged, and the change right after the cursor,
    /// if any, is not.
    pub proof fn lemma_cursor_within_acknowledged(&self)
        requires
            self.wf(),
        ensures
            forall|s: u64| 1 <= s <= self.spec_cursor() ==> self.spec_acknowledged().contains(s),
            self.spec_pending().len() > 0 ==> !self.spec_pending()[0].acknowledged
                && self.spec_pending()[0].entry.sequence == self.spec_cursor() + 1,
    {
    }
}

/// Counting the acknowledged changes at the front stops at the first one that is not.
proof fn lemma_leading_acknowledged(s: Seq<PendingChange>, k: int)
    requires
        0 <= k <= s.len(),
        forall|m: int| 0 <= m < k ==> (#[trigger] s[m]).acknowledged,
        k == s.len() || !s[k].acknowledged,
    ensures
        leading_acknowledged(s) == k,
    decreases k,
{
    if k > 0 {
        let rest = s.drop_first();
        assert forall|m: int| 0 <= m < k - 1 implies (#[trigger] rest[m]).acknowledged by {
            assert(rest[m] == s[m + 1]);
        }
        if k < s.len() {
            assert(rest[k - 1] == s[k]);
        }
        lemma_leading_acknowledged(rest, k - 1);
    }
}

} // verus!
