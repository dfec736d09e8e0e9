//! Planning a sweep: which outputs of the covenant address are swept, how they
//! are cut into chunks, and the request that spends one chunk.

use vstd::prelude::*;
use crate::domain::{
    views, DesiredOutput, DesiredOutputView, PreviousOutpoint, PreviousOutpointView,
    UnstakingRequest, UnstakingRequestView,
};
use crate::keys::CustodianKeySet;

verus! {

/// How many of the outputs at the end of the reversed listing are left alone.
pub const DEFAULT_TAIL_EXCLUSION: usize = 500;

/// The largest number of outputs one transaction spends.
pub const DEFAULT_CHUNK_SIZE: usize = 500;

/// The fee rate of a sweep transaction, in fee units per weight unit.
pub const DEFAULT_FEE_RATE: u64 = 2;

/// An unspent output as the UTXO source lists it.
#[derive(Clone, Copy, Debug, PartialEq, Eq)]
pub struct Utxo {
    pub txid: [u8; 32],
    pub vout: u32,
    pub amount: u64,
    pub height: u64,
}

/// Why a sweep policy was rejected.
#[derive(Clone, Copy, Debug, PartialEq, Eq, Structural)]
pub enum PolicyError {
    /// A chunk must be allowed to hold at least one output.
    ZeroChunkSize,
    /// The fee rate must be positive.
    ZeroFeeRate,
}

/// The fixed parameters of a sweep.
#[derive(Clone, Copy, Debug)]
pub struct SweepPolicy {
    tail_exclusion: usize,
    chunk_size: usize,
    fee_rate: u64,
}

impl SweepPolicy {
    /// The number of outputs left alone at the end of the reversed listing.
    pub closed spec fn spec_tail_exclusion(&self) -> nat {
        self.tail_exclusion as nat
    }

    /// The largest number of outputs in one chunk.
    pub closed spec fn spec_chunk_size(&self) -> nat {
        self.chunk_size as nat
    }

    /// The fee rate of every transaction of the sweep.
    pub closed spec fn spec_fee_rate(&self) -> nat {
        self.fee_rate as nat
    }

    /// A policy is usable when chunks can hold something and a fee is paid.
    /// Every policy is usable.
    #[verifier::type_invariant]
    pub open spec fn wf(&self) -> bool {
        self.spec_chunk_size() > 0 && self.spec_fee_rate() > 0
    }

    /// Forms a policy. A zero chunk size is reported before a zero fee rate.
    pub fn new(tail_exclusion: usize, chunk_size: usize, fee_rate: u64) -> (res: Result<
        SweepPolicy,
        PolicyError,
    >)
        ensures
            chunk_size == 0 ==> res == Err::<SweepPolicy, PolicyError>(PolicyError::ZeroChunkSize),
            chunk_size != 0 && fee_rate == 0 ==> res == Err::<SweepPolicy, PolicyError>(
                PolicyError::ZeroFeeRate,
            ),
            chunk_size != 0 && fee_rate != 0 ==> (res matches Ok(policy) && policy.wf()
                && policy.spec_tail_exclusion() == tail_exclusion && policy.spec_chunk_size()
                == chunk_size && policy.spec_fee_rate() == fee_rate),
    {
        if chunk_size == 0 {
            Err(PolicyError::ZeroChunkSize)
        } else if fee_rate == 0 {
            Err(PolicyError::ZeroFeeRate)
        } else {
            Ok(SweepPolicy { tail_exclusion, chunk_size, fee_rate })
        }
    }

    /// The policy of the standard sweep.
    pub fn standard() -> (policy: SweepPolicy)
        ensures
            policy.wf(),
            policy.spec_tail_exclusion() == DEFAULT_TAIL_EXCLUSION,
            policy.spec_chunk_size() == DEFAULT_CHUNK_SIZE,
            policy.spec_fee_rate() == DEFAULT_FEE_RATE,
    {
        SweepPolicy {
            tail_exclusion: DEFAULT_TAIL_EXCLUSION,
            chunk_size: DEFAULT_CHUNK_SIZE,
            fee_rate: DEFAULT_FEE_RATE,
        }
    }

    /// The number of outputs left alone at the end of the reversed listing.
    pub fn tail_exclusion(&self) -> (tail: usize)
        ensures
            tail == self.spec_tail_exclusion(),
    {
        self.tail_exclusion
    }

    /// The largest number of outputs in one chunk.
    pub fn chunk_size(&self) -> (size: usize)
        ensures
            size == self.spec_chunk_size(),
    {
        self.chunk_size
    }

    /// The fee rate of every transaction of the sweep.
    pub fn fee_rate(&self) -> (rate: u64)
        ensures
            rate == self.spec_fee_rate(),
    {
        self.fee_rate
    }
}

/// The outputs that are swept, in sweep order: the listing is reversed and the
/// last `tail` outputs of the reversed listing are left out. A listing of at
/// most `tail` outputs leaves nothing to sweep.
pub open spec fn sweepable<T>(listing: Seq<T>, tail: nat) -> Seq<T> {
    if listing.len() <= tail {
        Seq::empty()
    } else {
        listing.reverse().subrange(0, listing.len() - tail)
    }
}

/// Selects the outputs to sweep from the listing of the UTXO source.
pub fn select_sweepable(listing: &Vec<Utxo>, tail: usize) -> (selected: Vec<Utxo>)
    ensures
        selected@ == sweepable(listing@, tail as nat),
        listing.len() <= tail ==> selected.len() == 0,
        listing.len() > tail ==> selected.len() == listing.len() - tail,
        forall|i: int|
            0 <= i < selected.len() ==> #[trigger] selected[i] == listing[listing.len() - 1 - i],
{
    let mut selected: Vec<Utxo> = Vec::new();
    let n = listing.len();
    if n <= tail {
        return selected;
    }
    let keep = n - tail;
    let mut i: usize = 0;
    while i < keep
        invariant
            n == listing.len(),
            keep == n - tail,
            tail < n,
            i <= keep,
            selected.len() == i,
            forall|k: int| 0 <= k < i ==> selected@[k] == listing@[n - 1 - k],
        decreases keep - i,
    {
        selected.push(listing[n - 1 - i]);
        i = i + 1;
    }
    assert(selected@ =~= sweepable(listing@, tail as nat));
    selected
}

/// The number of chunks of at most `size` items that hold `count` items: the
/// quotient of `count` by `size`, rounded up.
pub open spec fn chunk_count(count: nat, size: nat) -> nat {
    ((count + size - 1) / (size as int)) as nat
}

/// Where chunk `index` ends in a sequence of `count` items.
pub open spec fn chunk_end(count: nat, size: nat, index: int) -> int {
    if (index + 1) * size <= count {
        (index + 1) * size
    } else {
        count as int
    }
}

/// Chunk `index` of `items`: the items from position `index * size` up to the
/// next multiple of `size` or the end of the sequence.
pub open spec fn chunk_at<T>(items: Seq<T>, size: nat, index: int) -> Seq<T> {
    items.subrange(index * size, chunk_end(items.len(), size, index))
}

/// The chunks of `items`, in order.
pub open spec fn chunked<T>(items: Seq<T>, size: nat) -> Seq<Seq<T>> {
    Seq::new(chunk_count(items.len(), size), |i: int| chunk_at(items, size, i))
}

/// The chunks reach the end of the sequence, and the last one is not empty.
pub proof fn lemma_chunk_count(count: nat, size: nat)
    requires
        size > 0,
    ensures
        chunk_count(count, size) * size >= count,
        count > 0 ==> (chunk_count(count, size) - 1) * size < count,
        count == 0 ==> chunk_count(count, size) == 0,
{
    let q = (count + size - 1) / (size as int);
    let r = (count + size - 1) % (size as int);
    vstd::arithmetic::div_mod::lemma_fundamental_div_mod(count + size - 1, size as int);
    vstd::arithmetic::div_mod::lemma_mod_bound(count + size - 1, size as int);
    assert(count + size - 1 == size * q + r);
    assert(q >= 0 && q * size >= count && (count > 0 ==> (q - 1) * size < count) && (count == 0
        ==> q == 0)) by (nonlinear_arith)
        requires
            count + size - 1 == size * q + r,
            0 <= r < size,
            size > 0,
            count >= 0,
    ;
}

/// A number of chunks that reaches the end of the sequence without an empty
/// last chunk is the chunk count.
pub proof fn lemma_chunk_count_unique(count: nat, size: nat, chunks: int)
    requires
        size > 0,
        0 <= chunks,
        chunks * size >= count,
        chunks == 0 || (chunks - 1) * size < count,
    ensures
        chunks == chunk_count(count, size),
{
    lemma_chunk_count(count, size);
    let q = chunk_count(count, size) as int;
    assert(chunks == q) by (nonlinear_arith)
        requires
            0 <= chunks,
            chunks * size >= count,
            chunks == 0 || (chunks - 1) * size < count,
            q * size >= count,
            count > 0 ==> (q - 1) * size < count,
            count == 0 ==> q == 0,
            q >= 0,
            size > 0,
    ;
}

/// A chunk starts inside the sequence.
proof fn lemma_chunk_starts_inside(count: nat, size: nat, index: int)
    requires
        size > 0,
        0 <= index < chunk_count(count, size),
    ensures
        0 <= index * size < count,
        index * size < chunk_end(count, size, index) <= count,
        chunk_end(count, size, index) - index * size <= size,
        index < chunk_count(count, size) - 1 ==> chunk_end(count, size, index) == index * size
            + size,
{
    lemma_chunk_count(count, size);
    let q = chunk_count(count, size) as int;
    assert(0 <= index * size && index * size <= (q - 1) * size && (index + 1) * size == index
        * size + size && (index < q - 1 ==> (index + 1) * size <= (q - 1) * size))
        by (nonlinear_arith)
        requires
            0 <= index <= q - 1,
            size > 0,
    ;
}

/// The first `upto` chunks, laid end to end, are the items before the end of
/// chunk `upto - 1`.
proof fn lemma_chunks_join_prefix<T>(items: Seq<T>, size: nat, upto: int)
    requires
        size > 0,
        0 <= upto <= chunk_count(items.len(), size),
    ensures
        chunked(items, size).subrange(0, upto).flatten_alt() == items.subrange(
            0,
            if upto == 0 {
                0
            } else {
                chunk_end(items.len(), size, upto - 1)
            },
        ),
    decreases upto,
{
    let all = chunked(items, size);
    let firsts = all.subrange(0, upto);
    if upto == 0 {
        assert(firsts.flatten_alt() =~= items.subrange(0, 0));
    } else {
        lemma_chunks_join_prefix(items, size, upto - 1);
        lemma_chunk_starts_inside(items.len(), size, upto - 1);
        assert(firsts.drop_last() =~= all.subrange(0, upto - 1));
        assert(firsts.last() == chunk_at(items, size, upto - 1));
        if upto - 1 > 0 {
            lemma_chunk_starts_inside(items.len(), size, upto - 2);
            assert(chunk_end(items.len(), size, upto - 2) == (upto - 1) * size) by (nonlinear_arith)
                requires
                    chunk_end(items.len(), size, upto - 2) == (upto - 2) * size + size,
            ;
        }
        assert(firsts.flatten_alt() =~= items.subrange(
            0,
            chunk_end(items.len(), size, upto - 1),
        ));
    }
}

/// Chunking is exhaustive and repeats nothing: the chunks, laid end to end in
/// order, are the sequence that was cut, so every item is in the chunks
/// exactly once. There are as many chunks as the quotient of the number of
/// items by the chunk size, rounded up.
pub proof fn lemma_chunks_cover_exactly_once<T>(items: Seq<T>, size: nat)
    requires
        size > 0,
    ensures
        chunked(items, size).flatten() == items,
        chunked(items, size).len() == chunk_count(items.len(), size),
        chunk_count(items.len(), size) * size >= items.len(),
        items.len() > 0 ==> (chunk_count(items.len(), size) - 1) * size < items.len(),
        items.len() == 0 ==> chunk_count(items.len(), size) == 0,
{
    let all = chunked(items, size);
    let total = chunk_count(items.len(), size) as int;
    lemma_chunk_count(items.len(), size);
    lemma_chunks_join_prefix(items, size, total);
    assert(all.subrange(0, total) =~= all);
    if total > 0 {
        lemma_chunk_starts_inside(items.len(), size, total - 1);
        assert(chunk_end(items.len(), size, total - 1) == items.len()) by (nonlinear_arith)
            requires
                total * size >= items.len(),
                chunk_end(items.len(), size, total - 1) == (if (total - 1 + 1) * size
                    <= items.len() {
                    (total - 1 + 1) * size
                } else {
                    items.len() as int
                }),
        ;
    }
    assert(items.subrange(0, items.len() as int) =~= items);
    all.lemma_flatten_and_flatten_alt_are_equivalent();
}

/// What a chunk holds: no chunk is empty or larger than the chunk size, every
/// chunk but the last is full, and the item at `offset` in chunk `index` is
/// the item at position `index * size + offset` of the sequence that was cut.
pub proof fn lemma_chunk_contents<T>(items: Seq<T>, size: nat, index: int)
    requires
        size > 0,
        0 <= index < chunk_count(items.len(), size),
    ensures
        1 <= chunk_at(items, size, index).len() <= size,
        index < chunk_count(items.len(), size) - 1 ==> chunk_at(items, size, index).len() == size,
        forall|offset: int|
            0 <= offset < chunk_at(items, size, index).len() ==> index * size + offset
                < items.len() && #[trigger] chunk_at(items, size, index)[offset] == items[index
                * size + offset],
{
    lemma_chunk_starts_inside(items.len(), size, index);
}

/// Chunks do not overlap: two different places in the chunks are two
/// different positions of the sequence that was cut.
pub proof fn lemma_chunks_do_not_overlap(
    size: nat,
    index_a: int,
    offset_a: int,
    index_b: int,
    offset_b: int,
)
    requires
        size > 0,
        0 <= index_a,
        0 <= index_b,
        0 <= offset_a < size,
        0 <= offset_b < size,
        index_a != index_b || offset_a != offset_b,
    ensures
        index_a * size + offset_a != index_b * size + offset_b,
{
    assert(index_a * size + offset_a != index_b * size + offset_b) by (nonlinear_arith)
        requires
            size > 0,
            0 <= index_a,
            0 <= index_b,
            0 <= offset_a < size,
            0 <= offset_b < size,
            index_a != index_b || offset_a != offset_b,
    ;
}

/// Every position of the sequence is in a chunk: position `position` is at
/// offset `position % size` of chunk `position / size`.
pub proof fn lemma_every_item_is_in_a_chunk<T>(items: Seq<T>, size: nat, position: int)
    requires
        size > 0,
        0 <= position < items.len(),
    ensures
        0 <= position / (size as int) < chunk_count(items.len(), size),
        0 <= position % (size as int) < chunk_at(items, size, position / (size as int)).len(),
        chunk_at(items, size, position / (size as int))[position % (size as int)]
            == items[position],
{
    let index = position / (size as int);
    let offset = position % (size as int);
    vstd::arithmetic::div_mod::lemma_fundamental_div_mod(position, size as int);
    vstd::arithmetic::div_mod::lemma_mod_bound(position, size as int);
    lemma_chunk_count(items.len(), size);
    let q = chunk_count(items.len(), size) as int;
    assert(0 <= index < q && index * size + offset == position && (index + 1) * size == index
        * size + size) by (nonlinear_arith)
        requires
            position == size * index + offset,
            0 <= offset < size,
            0 <= position < items.len(),
            q * size >= items.len(),
            q >= 0,
            size > 0,
    ;
    lemma_chunk_starts_inside(items.len(), size, index);
}

/// Cuts `items` into chunks of at most `size` outputs. Every chunk but the
/// last holds exactly `size` outputs and no chunk is empty.
pub fn partition(items: &Vec<Utxo>, size: usize) -> (chunks: Vec<Vec<Utxo>>)
    requires
        size > 0,
    ensures
        views(chunks@) == chunked(items@, size as nat),
        views(chunks@).flatten() == items@,
        chunks.len() == chunk_count(items.len() as nat, size as nat),
{
    let n = items.len();
    let mut chunks: Vec<Vec<Utxo>> = Vec::new();
    let mut start: usize = 0;
    assert(chunks.len() * size == 0) by (nonlinear_arith)
        requires
            chunks.len() == 0,
    ;
    while start < n
        invariant
            n == items.len(),
            size > 0,
            start <= n,
            start < n ==> start == chunks.len() * size,
            start == n ==> chunks.len() * size >= n && (chunks.len() == 0 || (chunks.len() - 1)
                * size < n),
            forall|i: int|
                0 <= i < chunks.len() ==> (#[trigger] chunks@[i])@ == chunk_at(
                    items@,
                    size as nat,
                    i,
                ),
        decreases n - start,
    {
        let end: usize = if n - start > size {
            start + size
        } else {
            n
        };
        let ghost index = chunks.len() as int;
        assert((index + 1) * size == start + size) by (nonlinear_arith)
            requires
                start == index * size,
        ;
        let mut chunk: Vec<Utxo> = Vec::new();
        let mut j: usize = start;
        while j < end
            invariant
                start <= j <= end <= n,
                n == items.len(),
                chunk@ == items@.subrange(start as int, j as int),
            decreases end - j,
        {
            chunk.push(items[j]);
            assert(chunk@ =~= items@.subrange(start as int, j + 1));
            j = j + 1;
        }
        assert(end == chunk_end(n as nat, size as nat, index));
        chunks.push(chunk);
        assert((chunks.len() - 1) * size < n);
        start = end;
    }
    proof {
        lemma_chunk_count_unique(n as nat, size as nat, chunks.len() as int);
        lemma_chunks_cover_exactly_once(items@, size as nat);
        assert(views(chunks@) =~= chunked(items@, size as nat));
    }
    chunks
}

/// The sum of the amounts of a chunk.
pub open spec fn total_amount(chunk: Seq<Utxo>) -> nat
    decreases chunk.len(),
{
    if chunk.len() == 0 {
        0
    } else {
        total_amount(chunk.drop_last()) + chunk.last().amount as nat
    }
}

/// The amounts of a prefix never exceed the amounts of the whole.
proof fn lemma_total_amount_prefix(chunk: Seq<Utxo>, upto: int)
    requires
        0 <= upto <= chunk.len(),
    ensures
        total_amount(chunk.subrange(0, upto)) <= total_amount(chunk),
    decreases chunk.len(),
{
    if upto == chunk.len() {
        assert(chunk.subrange(0, upto) =~= chunk);
    } else {
        lemma_total_amount_prefix(chunk.drop_last(), upto);
        assert(chunk.drop_last().subrange(0, upto) =~= chunk.subrange(0, upto));
    }
}

/// Sums the amounts of a chunk. The sum is `None` exactly when it does not
/// fit in 64 bits.
pub fn chunk_total(chunk: &Vec<Utxo>) -> (total: Option<u64>)
    ensures
        total is Some <==> total_amount(chunk@) <= u64::MAX,
        total matches Some(t) ==> t == total_amount(chunk@),
{
    let mut sum: u64 = 0;
    let mut i: usize = 0;
    while i < chunk.len()
        invariant
            i <= chunk.len(),
            sum == total_amount(chunk@.subrange(0, i as int)),
        decreases chunk.len() - i,
    {
        proof {
            assert(chunk@.subrange(0, i + 1).drop_last() =~= chunk@.subrange(0, i as int));
            lemma_total_amount_prefix(chunk@, i + 1);
        }
        match sum.checked_add(chunk[i].amount) {
            Some(next) => {
                sum = next;
            },
            None => {
                return None;
            },
        }
        i = i + 1;
    }
    assert(chunk@.subrange(0, i as int) =~= chunk@);
    Some(sum)
}

/// Why no request could be formed for a chunk.
#[derive(Clone, Copy, Debug, PartialEq, Eq, Structural)]
pub enum ChunkError {
    /// The amounts of the chunk do not fit in 64 bits.
    AmountOverflow,
    /// The chunk holds no amount to pay out.
    NothingToSpend,
}

/// The inputs of the request for a chunk: each output of the chunk, paired
/// with the covenant script and the amount observed for it.
pub open spec fn chunk_inputs(chunk: Seq<Utxo>, covenant_script: Seq<u8>) -> Seq<
    PreviousOutpointView,
> {
    Seq::new(
        chunk.len(),
        |i: int|
            PreviousOutpointView {
                txid: chunk[i].txid@,
                vout: chunk[i].vout as nat,
                script_pubkey: covenant_script,
                amount: chunk[i].amount as nat,
            },
    )
}

/// The request that sweeps a chunk: all of its amount goes to the destination
/// in one output, no fee is subtracted beforehand, replacement is off and the
/// session identifiers are zero.
pub open spec fn chunk_request_model(
    chunk: Seq<Utxo>,
    covenant_script: Seq<u8>,
    destination_script: Seq<u8>,
    custodians: crate::keys::CustodianKeySetView,
    fee_rate: nat,
) -> UnstakingRequestView {
    UnstakingRequestView {
        inputs: chunk_inputs(chunk, covenant_script),
        outputs: seq![
            DesiredOutputView { script_pubkey: destination_script, amount: total_amount(chunk) },
        ],
        custodians,
        fee_rate,
        rbf: false,
        session_sequence: 0,
        custodian_group_uid: Seq::new(32, |i: int| 0u8),
    }
}

/// Why no request can be formed for a chunk, if that is so. An amount that
/// does not fit in 64 bits is reported before an amount of zero.
pub open spec fn request_error(chunk: Seq<Utxo>) -> Option<ChunkError> {
    if total_amount(chunk) > u64::MAX {
        Some(ChunkError::AmountOverflow)
    } else if total_amount(chunk) == 0 {
        Some(ChunkError::NothingToSpend)
    } else {
        None
    }
}

/// Forms the request that sweeps one chunk to the destination script.
pub fn chunk_request(
    chunk: &Vec<Utxo>,
    covenant_script: &Vec<u8>,
    destination_script: &Vec<u8>,
    custodians: &CustodianKeySet,
    policy: &SweepPolicy,
) -> (res: Result<UnstakingRequest, ChunkError>)
    ensures
        request_error(chunk@) matches Some(e) ==> res == Err::<UnstakingRequest, ChunkError>(e),
        request_error(chunk@) is None ==> (res matches Ok(request) && request.wf() && request@
            == chunk_request_model(
            chunk@,
            covenant_script@,
            destination_script@,
            custodians@,
            policy.spec_fee_rate(),
        )),
{
    proof {
        use_type_invariant(custodians);
        use_type_invariant(policy);
    }
    let total = match chunk_total(chunk) {
        Some(total) => total,
        None => {
            return Err(ChunkError::AmountOverflow);
        },
    };
    let output = match DesiredOutput::new(destination_script.clone(), total) {
        Ok(output) => output,
        Err(_) => {
            return Err(ChunkError::NothingToSpend);
        },
    };
    let mut inputs: Vec<PreviousOutpoint> = Vec::new();
    let mut i: usize = 0;
    while i < chunk.len()
        invariant
            i <= chunk.len(),
            inputs.len() == i,
            forall|k: int|
                0 <= k < i ==> (#[trigger] inputs[k])@ == chunk_inputs(chunk@, covenant_script@)[k],
        decreases chunk.len() - i,
    {
        let utxo = &chunk[i];
        inputs.push(PreviousOutpoint::new(utxo.txid, utxo.vout, covenant_script.clone(), utxo.amount));
        i = i + 1;
    }
    let mut outputs: Vec<DesiredOutput> = Vec::new();
    outputs.push(output);
    let zero_uid: [u8; 32] = [0u8; 32];
    assert(zero_uid@ =~= Seq::new(32, |i: int| 0u8));
    assert(views(inputs@) =~= chunk_inputs(chunk@, covenant_script@));
    assert(views(outputs@) =~= seq![
        DesiredOutputView { script_pubkey: destination_script@, amount: total_amount(chunk@) },
    ]);
    match UnstakingRequest::new(
        inputs,
        outputs,
        custodians.clone(),
        policy.fee_rate(),
        false,
        0,
        zero_uid,
    ) {
        Ok(request) => Ok(request),
        Err(_) => Err(ChunkError::NothingToSpend),
    }
}

/// The chunks of a sweep: the sweepable outputs of the listing, cut by the
/// chunk size of the policy.
pub open spec fn sweep_plan(listing: Seq<Utxo>, policy: SweepPolicy) -> Seq<Seq<Utxo>> {
    chunked(sweepable(listing, policy.spec_tail_exclusion()), policy.spec_chunk_size())
}

/// Plans a sweep of the listing of the UTXO source. A listing that is empty
/// or no longer than the excluded tail gives no chunk.
pub fn plan_sweep(listing: &Vec<Utxo>, policy: &SweepPolicy) -> (chunks: Vec<Vec<Utxo>>)
    ensures
        views(chunks@) == sweep_plan(listing@, *policy),
        views(chunks@).flatten() == sweepable(listing@, policy.spec_tail_exclusion()),
        listing.len() <= policy.spec_tail_exclusion() ==> chunks.len() == 0,
{
    let selected = select_sweepable(listing, policy.tail_exclusion());
    proof {
        use_type_invariant(policy);
        lemma_chunk_count(selected@.len(), policy.spec_chunk_size());
    }
    partition(&selected, policy.chunk_size())
}

} // verus!
