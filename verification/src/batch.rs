//! A sweep as a whole: one task for each chunk, each moving on its own. An
//! event is addressed to one chunk and touches no other, and the sweep is
//! complete only when every chunk has ended.

use vstd::prelude::*;
use crate::chunk::{
    action_fits, first_action_fits, replay, started_task, ChunkAction, ChunkEvent, ChunkTask,
    ChunkTaskView,
};
use crate::domain::views;
use crate::keys::{byte_strings, key_set_defect, CustodianKeySet, CustodianKeySetView, KeyError};
use crate::sweep::{plan_sweep, sweep_plan, SweepPolicy, Utxo};

verus! {

/// The tasks after `event` was reported to chunk `chunk`. An event addressed
/// to a chunk that does not exist changes nothing.
pub open spec fn delivered(tasks: Seq<ChunkTaskView>, chunk: int, event: ChunkEvent) -> Seq<
    ChunkTaskView,
> {
    if 0 <= chunk < tasks.len() {
        tasks.update(chunk, tasks[chunk].after(event))
    } else {
        tasks
    }
}

/// Whether every chunk has ended.
pub open spec fn all_ended(tasks: Seq<ChunkTaskView>) -> bool {
    forall|i: int| 0 <= i < tasks.len() ==> (#[trigger] tasks[i]).is_terminal()
}

/// Whether every task is valid.
pub open spec fn all_wf(tasks: Seq<ChunkTaskView>) -> bool {
    forall|i: int| 0 <= i < tasks.len() ==> (#[trigger] tasks[i]).wf()
}

/// The tasks after a schedule of events, each addressed to one chunk, taken
/// in order.
pub open spec fn run(tasks: Seq<ChunkTaskView>, schedule: Seq<(int, ChunkEvent)>) -> Seq<
    ChunkTaskView,
>
    decreases schedule.len(),
{
    if schedule.len() == 0 {
        tasks
    } else {
        delivered(run(tasks, schedule.drop_last()), schedule.last().0, schedule.last().1)
    }
}

/// The events of a schedule that are addressed to chunk `chunk`, in order.
pub open spec fn events_for(schedule: Seq<(int, ChunkEvent)>, chunk: int) -> Seq<ChunkEvent>
    decreases schedule.len(),
{
    if schedule.len() == 0 {
        Seq::empty()
    } else if schedule.last().0 == chunk {
        events_for(schedule.drop_last(), chunk).push(schedule.last().1)
    } else {
        events_for(schedule.drop_last(), chunk)
    }
}

/// An event reaches the chunk it is addressed to and leaves every other chunk
/// as it was.
pub proof fn lemma_event_touches_one_chunk(
    tasks: Seq<ChunkTaskView>,
    chunk: int,
    event: ChunkEvent,
    other: int,
)
    requires
        0 <= other < tasks.len(),
        other != chunk,
    ensures
        delivered(tasks, chunk, event).len() == tasks.len(),
        delivered(tasks, chunk, event)[other] == tasks[other],
{
}

/// Chunks are independent: however the events of a sweep are interleaved,
/// each chunk ends up where its own events alone would have taken it. What
/// happens to one chunk, a failure included, neither stops nor alters any
/// other.
pub proof fn lemma_chunks_are_independent(
    tasks: Seq<ChunkTaskView>,
    schedule: Seq<(int, ChunkEvent)>,
    chunk: int,
)
    requires
        0 <= chunk < tasks.len(),
    ensures
        run(tasks, schedule).len() == tasks.len(),
        run(tasks, schedule)[chunk] == replay(tasks[chunk], events_for(schedule, chunk)),
    decreases schedule.len(),
{
    if schedule.len() > 0 {
        lemma_chunks_are_independent(tasks, schedule.drop_last(), chunk);
        if schedule.last().0 == chunk {
            let own = events_for(schedule.drop_last(), chunk).push(schedule.last().1);
            assert(own.drop_last() =~= events_for(schedule.drop_last(), chunk));
        }
    }
}

/// A chunk that has ended stays ended while the others go on.
pub proof fn lemma_ended_chunks_stay_ended(
    tasks: Seq<ChunkTaskView>,
    chunk: int,
    event: ChunkEvent,
    ended: int,
)
    requires
        0 <= ended < tasks.len(),
        tasks[ended].is_terminal(),
    ensures
        delivered(tasks, chunk, event)[ended] == tasks[ended],
{
}

/// The tasks of a sweep as they start: one for each chunk of the plan, in
/// order.
pub open spec fn started_batch(plan: Seq<Seq<Utxo>>, signer_count: nat, threshold: nat) -> Seq<
    ChunkTaskView,
> {
    Seq::new(plan.len(), |i: int| started_task(i as nat, plan[i], signer_count, threshold))
}

/// Whether `actions` holds, for each chunk of the plan, what the task of that
/// chunk asks for first.
pub open spec fn first_actions_fit(
    plan: Seq<Seq<Utxo>>,
    covenant_script: Seq<u8>,
    destination_script: Seq<u8>,
    custodians: CustodianKeySetView,
    fee_rate: nat,
    actions: Seq<ChunkAction>,
) -> bool {
    &&& actions.len() == plan.len()
    &&& forall|i: int|
        0 <= i < plan.len() ==> first_action_fits(
            plan[i],
            covenant_script,
            destination_script,
            custodians,
            fee_rate,
            #[trigger] actions[i],
        )
}

/// The tasks of a sweep.
#[derive(Debug)]
pub struct Batch {
    tasks: Vec<ChunkTask>,
}

impl View for Batch {
    type V = Seq<ChunkTaskView>;

    closed spec fn view(&self) -> Seq<ChunkTaskView> {
        views(self.tasks@)
    }
}

impl Batch {
    /// The validity of the batch: every task is valid.
    pub open spec fn wf(&self) -> bool {
        all_wf(self@)
    }

    /// Plans the sweep of a listing and starts one task for each chunk. The
    /// second component holds, for each chunk, what its task asks for first.
    pub fn plan(
        listing: &Vec<Utxo>,
        covenant_script: &Vec<u8>,
        destination_script: &Vec<u8>,
        custodians: &CustodianKeySet,
        policy: &SweepPolicy,
        signer_count: usize,
    ) -> (planned: (Batch, Vec<ChunkAction>))
        ensures
            planned.0.wf(),
            planned.0@ == started_batch(
                sweep_plan(listing@, *policy),
                signer_count as nat,
                custodians@.quorum,
            ),
            first_actions_fit(
                sweep_plan(listing@, *policy),
                covenant_script@,
                destination_script@,
                custodians@,
                policy.spec_fee_rate(),
                planned.1@,
            ),
    {
        let chunks = plan_sweep(listing, policy);
        let mut tasks: Vec<ChunkTask> = Vec::new();
        let mut actions: Vec<ChunkAction> = Vec::new();
        let mut i: usize = 0;
        while i < chunks.len()
            invariant
                views(chunks@) == sweep_plan(listing@, *policy),
                i <= chunks.len(),
                tasks.len() == i,
                actions.len() == i,
                forall|k: int| 0 <= k < i ==> (#[trigger] tasks[k]).wf(),
                forall|k: int|
                    0 <= k < i ==> (#[trigger] tasks[k])@ == started_task(
                        k as nat,
                        chunks[k]@,
                        signer_count as nat,
                        custodians@.quorum,
                    ),
                forall|k: int|
                    0 <= k < i ==> first_action_fits(
                        chunks[k]@,
                        covenant_script@,
                        destination_script@,
                        custodians@,
                        policy.spec_fee_rate(),
                        #[trigger] actions[k],
                    ),
            decreases chunks.len() - i,
        {
            let (task, action) = ChunkTask::start(
                i,
                &chunks[i],
                covenant_script,
                destination_script,
                custodians,
                policy,
                signer_count,
            );
            tasks.push(task);
            actions.push(action);
            i = i + 1;
        }
        let batch = Batch { tasks };
        proof {
            let plan = sweep_plan(listing@, *policy);
            assert(batch@.len() == plan.len());
            assert forall|k: int| 0 <= k < batch@.len() implies #[trigger] batch@[k]
                == started_task(k as nat, plan[k], signer_count as nat, custodians@.quorum) by {
                assert(batch.tasks[k]@ == batch@[k]);
                assert(views(chunks@)[k] == chunks[k]@);
            }
            assert(batch@ =~= started_batch(plan, signer_count as nat, custodians@.quorum));
            assert forall|k: int| 0 <= k < batch@.len() implies (#[trigger] batch@[k]).wf() by {
                assert(batch.tasks[k].wf());
            }
            assert forall|k: int| 0 <= k < actions.len() implies first_action_fits(
                plan[k],
                covenant_script@,
                destination_script@,
                custodians@,
                policy.spec_fee_rate(),
                #[trigger] actions[k],
            ) by {
                assert(views(chunks@)[k] == chunks[k]@);
            }
        }
        (batch, actions)
    }

    /// Plans a sweep from the serialized custodian keys. The keys are
    /// validated first, and nothing is planned unless they form a key set.
    pub fn start(
        listing: &Vec<Utxo>,
        covenant_script: &Vec<u8>,
        destination_script: &Vec<u8>,
        custodian_keys: &Vec<Vec<u8>>,
        quorum: u8,
        policy: &SweepPolicy,
        signer_count: usize,
    ) -> (res: Result<(Batch, Vec<ChunkAction>), KeyError>)
        ensures
            key_set_defect(byte_strings(custodian_keys@), quorum as nat) matches Some(e) ==> res
                == Err::<(Batch, Vec<ChunkAction>), KeyError>(e),
            key_set_defect(byte_strings(custodian_keys@), quorum as nat) is None ==> (
            res matches Ok(planned) && planned.0.wf() && planned.0@ == started_batch(
                sweep_plan(listing@, *policy),
                signer_count as nat,
                quorum as nat,
            ) && first_actions_fit(
                sweep_plan(listing@, *policy),
                covenant_script@,
                destination_script@,
                (CustodianKeySetView {
                    keys: byte_strings(custodian_keys@),
                    quorum: quorum as nat,
                }),
                policy.spec_fee_rate(),
                planned.1@,
            )),
    {
        match CustodianKeySet::from_encodings(custodian_keys, quorum) {
            Err(e) => Err(e),
            Ok(custodians) => Ok(
                Batch::plan(
                    listing,
                    covenant_script,
                    destination_script,
                    &custodians,
                    policy,
                    signer_count,
                ),
            ),
        }
    }

    /// The number of chunks.
    pub fn len(&self) -> (count: usize)
        ensures
            count == self@.len(),
    {
        self.tasks.len()
    }

    /// The task of chunk `chunk`, if there is such a chunk.
    pub fn task(&self, chunk: usize) -> (task: Option<ChunkTask>)
        ensures
            task is Some <==> chunk < self@.len(),
            task matches Some(t) ==> t@ == self@[chunk as int],
    {
        if chunk < self.tasks.len() {
            Some(self.tasks[chunk])
        } else {
            None
        }
    }

    /// Reports `event` to chunk `chunk` and says what that chunk asks for
    /// next. No other chunk is touched, and an event for a chunk that does
    /// not exist is ignored.
    pub fn deliver(&mut self, chunk: usize, event: ChunkEvent) -> (action: ChunkAction)
        ensures
            final(self)@ == delivered(old(self)@, chunk as int, event),
            old(self).wf() ==> final(self).wf(),
            chunk < old(self)@.len() ==> action_fits(old(self)@[chunk as int], event, action),
            chunk >= old(self)@.len() ==> action is Ignore,
    {
        if chunk >= self.tasks.len() {
            return ChunkAction::Ignore;
        }
        let mut task = self.tasks[chunk];
        assert(task@ == self@[chunk as int]);
        let action = task.advance(event);
        self.tasks.set(chunk, task);
        proof {
            assert(self@ =~= delivered(old(self)@, chunk as int, event));
        }
        action
    }

    /// Whether every chunk has ended, so that the sweep is complete.
    pub fn is_complete(&self) -> (complete: bool)
        ensures
            complete == all_ended(self@),
    {
        let mut i: usize = 0;
        while i < self.tasks.len()
            invariant
                i <= self.tasks.len(),
                forall|k: int| 0 <= k < i ==> (#[trigger] self@[k]).is_terminal(),
            decreases self.tasks.len() - i,
        {
            if !self.tasks[i].is_done() {
                assert(!self@[i as int].is_terminal());
                return false;
            }
            assert(self@[i as int].is_terminal());
            i = i + 1;
        }
        true
    }

    /// The number of chunks that have not ended yet.
    pub fn pending(&self) -> (count: usize)
        ensures
            count == pending_count(self@),
            count == 0 <==> all_ended(self@),
    {
        let mut count: usize = 0;
        let mut i: usize = 0;
        while i < self.tasks.len()
            invariant
                i <= self.tasks.len(),
                count == pending_count(self@.subrange(0, i as int)),
                count <= i,
            decreases self.tasks.len() - i,
        {
            assert(self@.subrange(0, i + 1).drop_last() =~= self@.subrange(0, i as int));
            assert(self@.subrange(0, i + 1).last() == self.tasks[i as int]@);
            if !self.tasks[i].is_done() {
                count = count + 1;
            }
            i = i + 1;
        }
        proof {
            assert(self@.subrange(0, i as int) =~= self@);
            lemma_pending_count_zero(self@);
        }
        count
    }
}

/// The number of tasks that have not ended.
pub open spec fn pending_count(tasks: Seq<ChunkTaskView>) -> nat
    decreases tasks.len(),
{
    if tasks.len() == 0 {
        0
    } else {
        pending_count(tasks.drop_last()) + if tasks.last().is_terminal() {
            0nat
        } else {
            1nat
        }
    }
}

/// No task is pending exactly when all have ended.
pub proof fn lemma_pending_count_zero(tasks: Seq<ChunkTaskView>)
    ensures
        pending_count(tasks) == 0 <==> all_ended(tasks),
    decreases tasks.len(),
{
    if tasks.len() > 0 {
        lemma_pending_count_zero(tasks.drop_last());
        if all_ended(tasks.drop_last()) && tasks.last().is_terminal() {
            assert forall|i: int| 0 <= i < tasks.len() implies (#[trigger] tasks[i]).is_terminal() by {
                if i < tasks.len() - 1 {
                    assert(tasks.drop_last()[i] == tasks[i]);
                }
            }
        }
        if all_ended(tasks) {
            assert forall|i: int| 0 <= i < tasks.drop_last().len() implies (
            #[trigger] tasks.drop_last()[i]).is_terminal() by {
                assert(tasks.drop_last()[i] == tasks[i]);
            }
        }
    }
}

} // verus!
