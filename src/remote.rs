use vstd::prelude::*;
use crate::record::RawSyncRecord;

verus! {

/// What the remote-queue pull does after one answer of the central server.
#[derive(Clone, Copy, Debug, PartialEq, Eq, Structural)]
pub struct RemotePullStep {
    /// Acknowledge the gathered records to the central server.
    pub acknowledge: bool,
    /// Pull from the queue again.
    pub pull_again: bool,
}

/// Takes in one answer of the remote queue: its records join those gathered, which are then
/// to be acknowledged, and pulling goes on while the queue reports records left.
pub fn remote_pull_step(
    gathered: &mut Vec<RawSyncRecord>,
    queue_length: u64,
    data: Option<Vec<RawSyncRecord>>,
) -> (r: RemotePullStep)
    ensures
        final(gathered)@ == old(gathered)@ + match data {
            Some(d) => d@,
            None => Seq::<RawSyncRecord>::empty(),
        },
        r.acknowledge == data is Some,
        r.pull_again == (queue_length > 0),
{
    let acknowledge = data.is_some();
    match data {
        Some(d) => {
            let mut d = d;
            gathered.append(&mut d);
        },
        None => {
            assert(gathered@ =~= gathered@ + Seq::<RawSyncRecord>::empty());
        },
    }
    RemotePullStep { acknowledge, pull_again: queue_length > 0 }
}

} // verus!
