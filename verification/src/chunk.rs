//! The life of one chunk: build, sign with every key, finalize and extract,
//! broadcast. The task decides what happens next; the caller does the work
//! that was asked for and reports how it went.

use vstd::prelude::*;
use crate::domain::UnstakingRequest;
use crate::hex::{broadcast_payload, hex_fits, lower_hex};
use crate::keys::{CustodianKeySet, CustodianKeySetView};
use crate::sweep::{
    chunk_request, chunk_request_model, chunk_total, request_error, total_amount, ChunkError,
    SweepPolicy, Utxo,
};

verus! {

/// Why a chunk was abandoned.
#[derive(Clone, Copy, Debug, PartialEq, Eq, Structural)]
pub enum ChunkFailure {
    /// No request could be formed for the chunk.
    RequestRejected(ChunkError),
    /// The builder could not construct the transaction.
    BuildFailed,
    /// Fewer signatures were gathered than the quorum asks for.
    InsufficientSignatures,
    /// The signed transaction could not be extracted.
    ExtractionFailed,
    /// The transaction is too large to be encoded for the broadcast client.
    TransactionTooLarge,
    /// The broadcast client refused the transaction or could not be reached.
    BroadcastFailed,
}

/// How a chunk ended.
#[derive(Clone, Copy, Debug, PartialEq, Eq, Structural)]
pub enum ChunkOutcome {
    /// The transaction was accepted by the broadcast client.
    Sent,
    /// The chunk was abandoned.
    Failed(ChunkFailure),
}

/// Where a chunk stands.
#[derive(Clone, Copy, Debug, PartialEq, Eq, Structural)]
pub enum ChunkPhase {
    /// The builder is constructing the transaction.
    Building,
    /// Key `next_key` is being applied; `valid` earlier keys have signed.
    Signing { next_key: usize, valid: usize },
    /// The transaction is being finalized and extracted.
    Extracting,
    /// The transaction is with the broadcast client.
    Broadcasting,
    /// Nothing more happens to this chunk.
    Done(ChunkOutcome),
}

/// What the caller reports back to a task.
#[derive(Debug)]
pub enum ChunkEvent {
    /// The builder returned; `ok` tells whether it produced a transaction.
    Built { ok: bool },
    /// The key that was asked for was applied; `ok` tells whether it signed.
    Signed { ok: bool },
    /// Finalization and extraction ended, with the serialized transaction if
    /// they succeeded.
    Extracted { transaction: Option<Vec<u8>> },
    /// The broadcast client answered; `ok` tells whether it accepted.
    Broadcasted { ok: bool },
}

/// What a task asks of the caller.
#[derive(Debug)]
pub enum ChunkAction {
    /// Have the builder construct the transaction for this request.
    Build(UnstakingRequest),
    /// Apply the signing key at this position.
    Sign { key: usize },
    /// Finalize the transaction and extract it.
    Extract,
    /// Submit this text to the broadcast client.
    Broadcast { payload: String },
    /// The chunk has ended this way; report it.
    Finish(ChunkOutcome),
    /// The event was not expected in this phase and changed nothing.
    Ignore,
}

/// The amount of a chunk, if it fits in 64 bits.
pub open spec fn checked_total(chunk: Seq<Utxo>) -> Option<u64> {
    if total_amount(chunk) <= u64::MAX {
        Some(total_amount(chunk) as u64)
    } else {
        None
    }
}

/// The phase in which the task of a chunk starts: with the builder, unless no
/// request can be formed for the chunk.
pub open spec fn first_phase(chunk: Seq<Utxo>) -> ChunkPhase {
    match request_error(chunk) {
        Some(e) => ChunkPhase::Done(ChunkOutcome::Failed(ChunkFailure::RequestRejected(e))),
        None => ChunkPhase::Building,
    }
}

/// The number of signing attempts that succeeded.
pub open spec fn valid_signatures(attempts: Seq<bool>) -> nat
    decreases attempts.len(),
{
    if attempts.len() == 0 {
        0
    } else {
        valid_signatures(attempts.drop_last()) + if attempts.last() {
            1nat
        } else {
            0nat
        }
    }
}

/// The mathematical content of a [`ChunkTask`].
pub ghost struct ChunkTaskView {
    pub index: nat,
    pub utxo_count: nat,
    pub amount: Option<u64>,
    pub signer_count: nat,
    pub threshold: nat,
    pub phase: ChunkPhase,
}

impl ChunkTaskView {
    /// While signing, the key in turn exists and no more signatures are
    /// counted than keys were applied.
    pub open spec fn wf(self) -> bool {
        &&& self.signer_count <= usize::MAX
        &&& self.phase matches ChunkPhase::Signing { next_key, valid } ==> valid <= next_key
            < self.signer_count
    }

    /// Whether the chunk has ended.
    pub open spec fn is_terminal(self) -> bool {
        self.phase is Done
    }

    /// Whether `event` answers what the task last asked for.
    pub open spec fn expects(self, event: ChunkEvent) -> bool {
        match self.phase {
            ChunkPhase::Building => event is Built,
            ChunkPhase::Signing { .. } => event is Signed,
            ChunkPhase::Extracting => event is Extracted,
            ChunkPhase::Broadcasting => event is Broadcasted,
            ChunkPhase::Done(_) => false,
        }
    }

    /// The phase once every key has been applied and `valid` of them signed:
    /// the transaction is finalized exactly when the quorum is met.
    pub open spec fn settled(self, valid: nat) -> ChunkPhase {
        if valid >= self.threshold {
            ChunkPhase::Extracting
        } else {
            ChunkPhase::Done(ChunkOutcome::Failed(ChunkFailure::InsufficientSignatures))
        }
    }

    /// The phase that follows `event`. An event that is not expected changes
    /// nothing; a failed signing is passed over and the next key is applied.
    pub open spec fn next_phase(self, event: ChunkEvent) -> ChunkPhase {
        match (self.phase, event) {
            (ChunkPhase::Building, ChunkEvent::Built { ok }) => if !ok {
                ChunkPhase::Done(ChunkOutcome::Failed(ChunkFailure::BuildFailed))
            } else if self.signer_count == 0 {
                self.settled(0)
            } else {
                ChunkPhase::Signing { next_key: 0, valid: 0 }
            },
            (ChunkPhase::Signing { next_key, valid }, ChunkEvent::Signed { ok }) => {
                let counted = if ok {
                    valid + 1
                } else {
                    valid as int
                };
                if next_key + 1 < self.signer_count {
                    ChunkPhase::Signing {
                        next_key: (next_key + 1) as usize,
                        valid: counted as usize,
                    }
                } else {
                    self.settled(counted as nat)
                }
            },
            (ChunkPhase::Extracting, ChunkEvent::Extracted { transaction }) => match transaction {
                None => ChunkPhase::Done(ChunkOutcome::Failed(ChunkFailure::ExtractionFailed)),
                Some(bytes) => if hex_fits(bytes@.len()) {
                    ChunkPhase::Broadcasting
                } else {
                    ChunkPhase::Done(ChunkOutcome::Failed(ChunkFailure::TransactionTooLarge))
                },
            },
            (ChunkPhase::Broadcasting, ChunkEvent::Broadcasted { ok }) => if ok {
                ChunkPhase::Done(ChunkOutcome::Sent)
            } else {
                ChunkPhase::Done(ChunkOutcome::Failed(ChunkFailure::BroadcastFailed))
            },
            _ => self.phase,
        }
    }

    /// The task after `event`.
    pub open spec fn after(self, event: ChunkEvent) -> ChunkTaskView {
        ChunkTaskView { phase: self.next_phase(event), ..self }
    }

    /// An upper bound on the number of expected events before the chunk ends.
    pub open spec fn steps_left(self) -> nat {
        match self.phase {
            ChunkPhase::Building => self.signer_count + 3,
            ChunkPhase::Signing { next_key, .. } => (self.signer_count - next_key + 2) as nat,
            ChunkPhase::Extracting => 2,
            ChunkPhase::Broadcasting => 1,
            ChunkPhase::Done(_) => 0,
        }
    }
}

/// Whether `action` is what a task in state `before` asks for on `event`.
pub open spec fn action_fits(before: ChunkTaskView, event: ChunkEvent, action: ChunkAction) -> bool {
    if !before.expects(event) {
        action is Ignore
    } else {
        match before.next_phase(event) {
            ChunkPhase::Building => false,
            ChunkPhase::Signing { next_key, .. } => action matches ChunkAction::Sign { key }
                && key == next_key,
            ChunkPhase::Extracting => action is Extract,
            ChunkPhase::Broadcasting => action matches ChunkAction::Broadcast { payload }
                && payload@ == lower_hex(event->transaction->0@),
            ChunkPhase::Done(outcome) => action matches ChunkAction::Finish(reported) && reported
                == outcome,
        }
    }
}

/// The task of chunk number `index` as it starts.
pub open spec fn started_task(
    index: nat,
    chunk: Seq<Utxo>,
    signer_count: nat,
    threshold: nat,
) -> ChunkTaskView {
    ChunkTaskView {
        index,
        utxo_count: chunk.len(),
        amount: checked_total(chunk),
        signer_count,
        threshold,
        phase: first_phase(chunk),
    }
}

/// Whether `action` is what the task of `chunk` asks for as it starts: the
/// construction of the transaction that sweeps the chunk, or the report that
/// no request could be formed.
pub open spec fn first_action_fits(
    chunk: Seq<Utxo>,
    covenant_script: Seq<u8>,
    destination_script: Seq<u8>,
    custodians: CustodianKeySetView,
    fee_rate: nat,
    action: ChunkAction,
) -> bool {
    match request_error(chunk) {
        None => action matches ChunkAction::Build(request) && request.wf() && request@
            == chunk_request_model(chunk, covenant_script, destination_script, custodians, fee_rate),
        Some(e) => action matches ChunkAction::Finish(outcome) && outcome == ChunkOutcome::Failed(
            ChunkFailure::RequestRejected(e),
        ),
    }
}

/// One chunk of a sweep on its way to the network.
#[derive(Clone, Copy, Debug)]
pub struct ChunkTask {
    index: usize,
    utxo_count: usize,
    amount: Option<u64>,
    signer_count: usize,
    threshold: u8,
    phase: ChunkPhase,
}

impl View for ChunkTask {
    type V = ChunkTaskView;

    closed spec fn view(&self) -> ChunkTaskView {
        ChunkTaskView {
            index: self.index as nat,
            utxo_count: self.utxo_count as nat,
            amount: self.amount,
            signer_count: self.signer_count as nat,
            threshold: self.threshold as nat,
            phase: self.phase,
        }
    }
}

impl ChunkTask {
    /// The validity of the task, stated over its content. Every task is
    /// valid.
    #[verifier::type_invariant]
    pub open spec fn wf(&self) -> bool {
        self@.wf()
    }

    /// Starts the task of chunk number `index`. The request for the chunk is
    /// formed at once: if that fails the task has ended before it began,
    /// otherwise the builder is asked to construct the transaction.
    /// `signer_count` is the number of signing keys at hand.
    pub fn start(
        index: usize,
        chunk: &Vec<Utxo>,
        covenant_script: &Vec<u8>,
        destination_script: &Vec<u8>,
        custodians: &CustodianKeySet,
        policy: &SweepPolicy,
        signer_count: usize,
    ) -> (started: (ChunkTask, ChunkAction))
        ensures
            started.0.wf(),
            started.0@ == started_task(
                index as nat,
                chunk@,
                signer_count as nat,
                custodians@.quorum,
            ),
            first_action_fits(
                chunk@,
                covenant_script@,
                destination_script@,
                custodians@,
                policy.spec_fee_rate(),
                started.1,
            ),
    {
        let amount = chunk_total(chunk);
        let threshold = custodians.quorum();
        match chunk_request(chunk, covenant_script, destination_script, custodians, policy) {
            Ok(request) => {
                let task = ChunkTask {
                    index,
                    utxo_count: chunk.len(),
                    amount,
                    signer_count,
                    threshold,
                    phase: ChunkPhase::Building,
                };
                (task, ChunkAction::Build(request))
            },
            Err(error) => {
                let outcome = ChunkOutcome::Failed(ChunkFailure::RequestRejected(error));
                let task = ChunkTask {
                    index,
                    utxo_count: chunk.len(),
                    amount,
                    signer_count,
                    threshold,
                    phase: ChunkPhase::Done(outcome),
                };
                (task, ChunkAction::Finish(outcome))
            },
        }
    }

    /// The phase after the last key: finalize if the quorum is met, abandon
    /// the chunk otherwise.
    fn settle(&self, valid: usize) -> (phase: ChunkPhase)
        ensures
            phase == self@.settled(valid as nat),
    {
        if valid >= self.threshold as usize {
            ChunkPhase::Extracting
        } else {
            ChunkPhase::Done(ChunkOutcome::Failed(ChunkFailure::InsufficientSignatures))
        }
    }

    /// What to ask of the caller on entering `phase`, for the phases that
    /// carry no payload.
    fn request_for(phase: ChunkPhase) -> (action: ChunkAction)
        requires
            !(phase is Building),
            !(phase is Broadcasting),
        ensures
            phase matches ChunkPhase::Signing { next_key, .. } ==> (action matches ChunkAction::Sign {
                key,
            } && key == next_key),
            phase is Extracting ==> action is Extract,
            phase matches ChunkPhase::Done(outcome) ==> (action matches ChunkAction::Finish(
                reported,
            ) && reported == outcome),
    {
        match phase {
            ChunkPhase::Signing { next_key, .. } => ChunkAction::Sign { key: next_key },
            ChunkPhase::Done(outcome) => ChunkAction::Finish(outcome),
            _ => ChunkAction::Extract,
        }
    }

    /// Takes note of `event` and says what to do next. Only the event that
    /// answers the last request moves the task; any other is ignored. A key
    /// that fails to sign does not stop the signing.
    pub fn advance(&mut self, event: ChunkEvent) -> (action: ChunkAction)
        ensures
            final(self)@ == old(self)@.after(event),
            final(self).wf(),
            action_fits(old(self)@, event, action),
    {
        proof {
            use_type_invariant(&*self);
        }
        match (self.phase, event) {
            (ChunkPhase::Building, ChunkEvent::Built { ok }) => {
                let phase = if !ok {
                    ChunkPhase::Done(ChunkOutcome::Failed(ChunkFailure::BuildFailed))
                } else if self.signer_count == 0 {
                    self.settle(0)
                } else {
                    ChunkPhase::Signing { next_key: 0, valid: 0 }
                };
                self.phase = phase;
                Self::request_for(phase)
            },
            (ChunkPhase::Signing { next_key, valid }, ChunkEvent::Signed { ok }) => {
                let counted: usize = if ok {
                    valid + 1
                } else {
                    valid
                };
                let phase = if next_key + 1 < self.signer_count {
                    ChunkPhase::Signing { next_key: next_key + 1, valid: counted }
                } else {
                    self.settle(counted)
                };
                self.phase = phase;
                Self::request_for(phase)
            },
            (ChunkPhase::Extracting, ChunkEvent::Extracted { transaction }) => match transaction {
                None => {
                    let outcome = ChunkOutcome::Failed(ChunkFailure::ExtractionFailed);
                    self.phase = ChunkPhase::Done(outcome);
                    ChunkAction::Finish(outcome)
                },
                Some(bytes) => match broadcast_payload(&bytes) {
                    Some(payload) => {
                        self.phase = ChunkPhase::Broadcasting;
                        ChunkAction::Broadcast { payload }
                    },
                    None => {
                        let outcome = ChunkOutcome::Failed(ChunkFailure::TransactionTooLarge);
                        self.phase = ChunkPhase::Done(outcome);
                        ChunkAction::Finish(outcome)
                    },
                },
            },
            (ChunkPhase::Broadcasting, ChunkEvent::Broadcasted { ok }) => {
                let outcome = if ok {
                    ChunkOutcome::Sent
                } else {
                    ChunkOutcome::Failed(ChunkFailure::BroadcastFailed)
                };
                self.phase = ChunkPhase::Done(outcome);
                ChunkAction::Finish(outcome)
            },
            _ => ChunkAction::Ignore,
        }
    }
}

impl ChunkTask {
    /// The position of the chunk in the sweep, counted from zero.
    pub fn index(&self) -> (index: usize)
        ensures
            index == self@.index,
    {
        self.index
    }

    /// The number of outputs the chunk spends.
    pub fn utxo_count(&self) -> (count: usize)
        ensures
            count == self@.utxo_count,
    {
        self.utxo_count
    }

    /// The amount the chunk pays out, if it fits in 64 bits.
    pub fn amount(&self) -> (amount: Option<u64>)
        ensures
            amount == self@.amount,
    {
        self.amount
    }

    /// The number of signing keys at hand.
    pub fn signer_count(&self) -> (count: usize)
        ensures
            count == self@.signer_count,
    {
        self.signer_count
    }

    /// The number of signatures that authorizes the spend.
    pub fn threshold(&self) -> (threshold: u8)
        ensures
            threshold as nat == self@.threshold,
    {
        self.threshold
    }

    /// Where the chunk stands.
    pub fn phase(&self) -> (phase: ChunkPhase)
        ensures
            phase == self@.phase,
    {
        self.phase
    }

    /// How the chunk ended, once it has.
    pub fn outcome(&self) -> (outcome: Option<ChunkOutcome>)
        ensures
            outcome == (match self@.phase {
                ChunkPhase::Done(o) => Some(o),
                _ => None,
            }),
    {
        match self.phase {
            ChunkPhase::Done(outcome) => Some(outcome),
            _ => None,
        }
    }

    /// Whether the chunk has ended.
    pub fn is_done(&self) -> (done: bool)
        ensures
            done == self@.is_terminal(),
    {
        match self.phase {
            ChunkPhase::Done(_) => true,
            _ => false,
        }
    }
}

/// The task after a series of events, taken in order.
pub open spec fn replay(task: ChunkTaskView, events: Seq<ChunkEvent>) -> ChunkTaskView
    decreases events.len(),
{
    if events.len() == 0 {
        task
    } else {
        replay(task, events.drop_last()).after(events.last())
    }
}

/// The reports of a series of signing attempts, one event for each.
pub open spec fn signing_events(attempts: Seq<bool>) -> Seq<ChunkEvent> {
    Seq::new(attempts.len(), |i: int| ChunkEvent::Signed { ok: attempts[i] })
}

/// An event that answers the last request brings the task strictly closer to
/// its end and keeps it valid; a task with no step left has ended.
pub proof fn lemma_expected_event_makes_progress(task: ChunkTaskView, event: ChunkEvent)
    requires
        task.wf(),
    ensures
        task.after(event).wf(),
        task.expects(event) ==> task.after(event).steps_left() < task.steps_left(),
        !task.expects(event) ==> task.after(event) == task,
        task.steps_left() == 0 <==> task.is_terminal(),
{
}

/// Whether each event of a series answers what the task asked for when the
/// event came.
pub open spec fn all_expected(task: ChunkTaskView, events: Seq<ChunkEvent>) -> bool
    decreases events.len(),
{
    events.len() == 0 || (all_expected(task, events.drop_last()) && replay(
        task,
        events.drop_last(),
    ).expects(events.last()))
}

/// Every chunk ends: a task takes no more answers than it has steps left,
/// which is at most three more than there are signing keys, and a task that
/// has taken that many has ended.
pub proof fn lemma_task_ends_within_bound(task: ChunkTaskView, events: Seq<ChunkEvent>)
    requires
        task.wf(),
        all_expected(task, events),
    ensures
        replay(task, events).wf(),
        replay(task, events).steps_left() + events.len() <= task.steps_left(),
        task.steps_left() <= task.signer_count + 3,
        events.len() == task.steps_left() ==> replay(task, events).is_terminal(),
    decreases events.len(),
{
    if events.len() > 0 {
        lemma_task_ends_within_bound(task, events.drop_last());
        lemma_expected_event_makes_progress(replay(task, events.drop_last()), events.last());
    }
}

/// A task that has ended stays as it is, whatever is reported to it.
pub proof fn lemma_ended_task_is_final(task: ChunkTaskView, events: Seq<ChunkEvent>)
    requires
        task.is_terminal(),
    ensures
        replay(task, events) == task,
    decreases events.len(),
{
    if events.len() > 0 {
        lemma_ended_task_is_final(task, events.drop_last());
    }
}

/// While keys remain, the task counts the attempts that signed and passes
/// over the others.
proof fn lemma_signing_counts(task: ChunkTaskView, attempts: Seq<bool>)
    requires
        task.wf(),
        task.phase == (ChunkPhase::Signing { next_key: 0, valid: 0 }),
        attempts.len() < task.signer_count,
    ensures
        replay(task, signing_events(attempts)).phase == (ChunkPhase::Signing {
            next_key: attempts.len() as usize,
            valid: valid_signatures(attempts) as usize,
        }),
        valid_signatures(attempts) <= attempts.len(),
        replay(task, signing_events(attempts)) == (ChunkTaskView {
            phase: replay(task, signing_events(attempts)).phase,
            ..task
        }),
    decreases attempts.len(),
{
    if attempts.len() > 0 {
        lemma_signing_counts(task, attempts.drop_last());
        assert(signing_events(attempts).drop_last() =~= signing_events(attempts.drop_last()));
    }
}

/// The quorum decides: once the builder has succeeded and every signing key
/// has been applied, the transaction goes on to finalization and extraction
/// if and only if at least as many keys signed as the quorum asks for.
/// Otherwise the chunk is abandoned for want of signatures, so with one
/// signature fewer than the quorum nothing is extracted.
pub proof fn lemma_quorum_decides_finalization(task: ChunkTaskView, attempts: Seq<bool>)
    requires
        task.wf(),
        task.phase == ChunkPhase::Building,
        attempts.len() == task.signer_count,
    ensures
        ({
            let built = task.after(ChunkEvent::Built { ok: true });
            let signed = replay(built, signing_events(attempts));
            &&& valid_signatures(attempts) >= task.threshold <==> signed.phase
                == ChunkPhase::Extracting
            &&& valid_signatures(attempts) < task.threshold <==> signed.phase == ChunkPhase::Done(
                ChunkOutcome::Failed(ChunkFailure::InsufficientSignatures),
            )
        }),
{
    let built = task.after(ChunkEvent::Built { ok: true });
    if attempts.len() == 0 {
        assert(signing_events(attempts) =~= Seq::<ChunkEvent>::empty());
    } else {
        lemma_signing_counts(built, attempts.drop_last());
        assert(signing_events(attempts).drop_last() =~= signing_events(attempts.drop_last()));
    }
}

} // verus!
