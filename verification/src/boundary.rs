//! The foreign boundary: an untrusted raw request is validated into domain
//! values before the transaction builder sees it, and the builder's outcome is
//! turned into the buffer handed back to the foreign caller.

use vstd::prelude::*;
use crate::domain::{
    views, DesiredOutput, DesiredOutputView, PreviousOutpoint, PreviousOutpointView,
    UnstakingRequest, UnstakingRequestView,
};
use crate::keys::{byte_strings, key_set_defect, CustodianKeySet, CustodianKeySetView, KeyError};

verus! {

/// The length of a transaction identifier.
pub const TXID_LEN: usize = 32;

/// One input record as the foreign caller wrote it. A script whose pointer
/// was null is `None`.
#[derive(Debug)]
pub struct RawInput {
    pub txid: Vec<u8>,
    pub vout: u32,
    pub script_pubkey: Option<Vec<u8>>,
    pub amount: u64,
}

/// One output record as the foreign caller wrote it. A script whose pointer
/// was null is `None`.
#[derive(Debug)]
pub struct RawOutput {
    pub script_pubkey: Option<Vec<u8>>,
    pub amount: u64,
}

/// The arguments of the boundary function, read into owned memory. A buffer
/// whose pointer was null is `None`; nothing else has been checked.
#[derive(Debug)]
pub struct RawRequest {
    pub tag: Option<Vec<u8>>,
    pub service_tag: Option<Vec<u8>>,
    pub version: u8,
    pub network_kind: u8,
    pub inputs: Option<Vec<RawInput>>,
    pub outputs: Option<Vec<RawOutput>>,
    pub custodian_keys: Option<Vec<Vec<u8>>>,
    pub quorum: u8,
    pub rbf: bool,
    pub fee_rate: u64,
}

/// Why a raw request was rejected.
#[derive(Clone, Copy, Debug, PartialEq, Eq, Structural)]
pub enum MarshalError {
    /// One of the buffers is null.
    NullBuffer,
    /// An input's transaction identifier does not have 32 bytes, or its
    /// script is null.
    MalformedOutpoint,
    /// An output's script is null.
    MalformedOutput,
    /// An output carries no amount.
    ZeroAmountOutput,
    /// A custodian key is not a serialized public key.
    MalformedKey,
    /// A custodian key occurs twice.
    DuplicateKey,
    /// The quorum is zero or exceeds the number of keys.
    QuorumOutOfRange,
    /// The fee rate is zero.
    ZeroFeeRate,
}

/// The mathematical content of [`BuilderSettings`].
pub ghost struct BuilderSettingsView {
    pub tag: Seq<u8>,
    pub service_tag: Seq<u8>,
    pub version: u8,
    pub network_kind: u8,
}

/// What configures the transaction builder itself: the protocol tag, the
/// service tag, the protocol version and the kind of network.
#[derive(Debug)]
pub struct BuilderSettings {
    pub tag: Vec<u8>,
    pub service_tag: Vec<u8>,
    pub version: u8,
    pub network_kind: u8,
}

impl View for BuilderSettings {
    type V = BuilderSettingsView;

    open spec fn view(&self) -> BuilderSettingsView {
        BuilderSettingsView {
            tag: self.tag@,
            service_tag: self.service_tag@,
            version: self.version,
            network_kind: self.network_kind,
        }
    }
}

/// A raw request that passed validation.
#[derive(Debug)]
pub struct Marshalled {
    pub settings: BuilderSettings,
    pub request: UnstakingRequest,
}

/// Whether any of the five buffers of the request is null.
pub open spec fn has_null_buffer(raw: RawRequest) -> bool {
    raw.tag is None || raw.service_tag is None || raw.inputs is None || raw.outputs is None
        || raw.custodian_keys is None
}

/// Whether a raw input cannot be an outpoint: its transaction identifier
/// does not have 32 bytes, or its script is null.
pub open spec fn input_is_malformed(input: RawInput) -> bool {
    input.txid.len() != TXID_LEN || input.script_pubkey is None
}

/// The outpoint a raw input describes.
pub open spec fn input_model(input: RawInput) -> PreviousOutpointView {
    PreviousOutpointView {
        txid: input.txid@,
        vout: input.vout as nat,
        script_pubkey: input.script_pubkey->0@,
        amount: input.amount as nat,
    }
}

/// The output a raw output describes.
pub open spec fn output_model(output: RawOutput) -> DesiredOutputView {
    DesiredOutputView { script_pubkey: output.script_pubkey->0@, amount: output.amount as nat }
}

/// The defect of a raw request that a defect of its keys amounts to.
pub open spec fn key_defect(error: KeyError) -> MarshalError {
    match error {
        KeyError::Malformed => MarshalError::MalformedKey,
        KeyError::Duplicate => MarshalError::DuplicateKey,
        KeyError::QuorumOutOfRange => MarshalError::QuorumOutOfRange,
    }
}

/// The first defect of a raw request, in the order in which the request is
/// examined: null buffers, then the inputs, the scripts of the outputs, the
/// amounts of the outputs, the keys, the quorum and the fee rate. `None` when
/// the request is acceptable.
pub open spec fn defect(raw: RawRequest) -> Option<MarshalError> {
    if has_null_buffer(raw) {
        Some(MarshalError::NullBuffer)
    } else if exists|i: int|
        0 <= i < raw.inputs->0.len() && input_is_malformed(#[trigger] raw.inputs->0[i]) {
        Some(MarshalError::MalformedOutpoint)
    } else if exists|i: int|
        0 <= i < raw.outputs->0.len() && (#[trigger] raw.outputs->0[i]).script_pubkey is None {
        Some(MarshalError::MalformedOutput)
    } else if exists|i: int|
        0 <= i < raw.outputs->0.len() && (#[trigger] raw.outputs->0[i]).amount == 0 {
        Some(MarshalError::ZeroAmountOutput)
    } else {
        match key_set_defect(byte_strings(raw.custodian_keys->0@), raw.quorum as nat) {
            Some(e) => Some(key_defect(e)),
            None => if raw.fee_rate == 0 {
                Some(MarshalError::ZeroFeeRate)
            } else {
                None
            },
        }
    }
}

/// The request an acceptable raw request stands for. A request that crosses
/// the boundary belongs to no session: its sequence number and its group
/// identifier are zero.
pub open spec fn request_model(raw: RawRequest) -> UnstakingRequestView {
    UnstakingRequestView {
        inputs: Seq::new(raw.inputs->0.len() as nat, |i: int| input_model(raw.inputs->0[i])),
        outputs: Seq::new(raw.outputs->0.len() as nat, |i: int| output_model(raw.outputs->0[i])),
        custodians: CustodianKeySetView {
            keys: byte_strings(raw.custodian_keys->0@),
            quorum: raw.quorum as nat,
        },
        fee_rate: raw.fee_rate as nat,
        rbf: raw.rbf,
        session_sequence: 0,
        custodian_group_uid: Seq::new(32, |i: int| 0u8),
    }
}

/// The builder settings a raw request with no null buffer carries.
pub open spec fn settings_model(raw: RawRequest) -> BuilderSettingsView {
    BuilderSettingsView {
        tag: raw.tag->0@,
        service_tag: raw.service_tag->0@,
        version: raw.version,
        network_kind: raw.network_kind,
    }
}

/// Copies 32 bytes into a transaction identifier.
fn txid_from_bytes(bytes: &Vec<u8>) -> (txid: [u8; 32])
    requires
        bytes.len() == TXID_LEN,
    ensures
        txid@ == bytes@,
{
    let mut txid: [u8; 32] = [0u8; 32];
    let mut i: usize = 0;
    while i < 32
        invariant
            i <= 32,
            bytes.len() == 32,
            forall|k: int| 0 <= k < i ==> txid@[k] == bytes@[k],
        decreases 32 - i,
    {
        txid[i] = bytes[i];
        i = i + 1;
    }
    assert(txid@ =~= bytes@);
    txid
}

/// Converts the raw inputs, or reports that one of them is malformed.
fn marshal_inputs(raw: &Vec<RawInput>) -> (res: Option<Vec<PreviousOutpoint>>)
    ensures
        res is None <==> exists|i: int| 0 <= i < raw.len() && input_is_malformed(#[trigger] raw[i]),
        res matches Some(inputs) ==> views(inputs@) == Seq::new(
            raw.len() as nat,
            |i: int| input_model(raw[i]),
        ),
{
    let mut inputs: Vec<PreviousOutpoint> = Vec::new();
    let mut i: usize = 0;
    while i < raw.len()
        invariant
            i <= raw.len(),
            inputs.len() == i,
            forall|k: int| 0 <= k < i ==> !input_is_malformed(#[trigger] raw[k]),
            forall|k: int| 0 <= k < i ==> (#[trigger] inputs[k])@ == input_model(raw[k]),
        decreases raw.len() - i,
    {
        let input = &raw[i];
        if input.txid.len() != TXID_LEN {
            return None;
        }
        let script = match &input.script_pubkey {
            Some(script) => script.clone(),
            None => {
                return None;
            },
        };
        let txid = txid_from_bytes(&input.txid);
        inputs.push(PreviousOutpoint::new(txid, input.vout, script, input.amount));
        i = i + 1;
    }
    assert(views(inputs@) =~= Seq::new(raw.len() as nat, |i: int| input_model(raw[i])));
    Some(inputs)
}

/// Converts the raw outputs. An output without script is reported before an
/// output that pays nothing.
fn marshal_outputs(raw: &Vec<RawOutput>) -> (res: Result<Vec<DesiredOutput>, MarshalError>)
    ensures
        (exists|i: int| 0 <= i < raw.len() && (#[trigger] raw[i]).script_pubkey is None) ==> res
            == Err::<Vec<DesiredOutput>, MarshalError>(MarshalError::MalformedOutput),
        !(exists|i: int| 0 <= i < raw.len() && (#[trigger] raw[i]).script_pubkey is None) && (
        exists|i: int| 0 <= i < raw.len() && (#[trigger] raw[i]).amount == 0) ==> res == Err::<
            Vec<DesiredOutput>,
            MarshalError,
        >(MarshalError::ZeroAmountOutput),
        !(exists|i: int| 0 <= i < raw.len() && (#[trigger] raw[i]).script_pubkey is None) && !(
        exists|i: int| 0 <= i < raw.len() && (#[trigger] raw[i]).amount == 0) ==> (
        res matches Ok(outputs) && views(outputs@) == Seq::new(
            raw.len() as nat,
            |i: int| output_model(raw[i]),
        ) && forall|i: int| 0 <= i < outputs.len() ==> (#[trigger] outputs[i]).wf()),
{
    let mut checked: usize = 0;
    while checked < raw.len()
        invariant
            checked <= raw.len(),
            forall|k: int| 0 <= k < checked ==> (#[trigger] raw[k]).script_pubkey is Some,
        decreases raw.len() - checked,
    {
        if raw[checked].script_pubkey.is_none() {
            return Err(MarshalError::MalformedOutput);
        }
        checked = checked + 1;
    }
    let mut outputs: Vec<DesiredOutput> = Vec::new();
    let mut i: usize = 0;
    while i < raw.len()
        invariant
            i <= raw.len(),
            outputs.len() == i,
            forall|k: int| 0 <= k < raw.len() ==> (#[trigger] raw[k]).script_pubkey is Some,
            forall|k: int| 0 <= k < i ==> (#[trigger] raw[k]).amount != 0,
            forall|k: int| 0 <= k < i ==> (#[trigger] outputs[k])@ == output_model(raw[k]),
            forall|k: int| 0 <= k < i ==> (#[trigger] outputs[k]).wf(),
        decreases raw.len() - i,
    {
        let output = &raw[i];
        let script = match &output.script_pubkey {
            Some(script) => script.clone(),
            None => {
                return Err(MarshalError::MalformedOutput);
            },
        };
        match DesiredOutput::new(script, output.amount) {
            Ok(converted) => {
                outputs.push(converted);
            },
            Err(_) => {
                return Err(MarshalError::ZeroAmountOutput);
            },
        }
        i = i + 1;
    }
    assert(views(outputs@) =~= Seq::new(raw.len() as nat, |i: int| output_model(raw[i])));
    Ok(outputs)
}

/// Validates a raw request. The request is examined in a fixed order and the
/// first defect found is the error; a request without defect becomes a valid
/// [`UnstakingRequest`] with the builder settings that came with it.
pub fn marshal_request(raw: &RawRequest) -> (res: Result<Marshalled, MarshalError>)
    ensures
        defect(*raw) matches Some(e) ==> res == Err::<Marshalled, MarshalError>(e),
        defect(*raw) is None ==> (res matches Ok(m) && m.request.wf() && m.request@
            == request_model(*raw) && m.settings@ == settings_model(*raw)),
{
    let (tag, service_tag, raw_inputs, raw_outputs, raw_keys) = match (
        &raw.tag,
        &raw.service_tag,
        &raw.inputs,
        &raw.outputs,
        &raw.custodian_keys,
    ) {
        (Some(tag), Some(service_tag), Some(inputs), Some(outputs), Some(keys)) => (
            tag,
            service_tag,
            inputs,
            outputs,
            keys,
        ),
        _ => {
            return Err(MarshalError::NullBuffer);
        },
    };
    let inputs = match marshal_inputs(raw_inputs) {
        Some(inputs) => inputs,
        None => {
            return Err(MarshalError::MalformedOutpoint);
        },
    };
    let outputs = match marshal_outputs(raw_outputs) {
        Ok(outputs) => outputs,
        Err(e) => {
            return Err(e);
        },
    };
    let custodians = match CustodianKeySet::from_encodings(raw_keys, raw.quorum) {
        Ok(custodians) => custodians,
        Err(KeyError::Malformed) => {
            return Err(MarshalError::MalformedKey);
        },
        Err(KeyError::Duplicate) => {
            return Err(MarshalError::DuplicateKey);
        },
        Err(KeyError::QuorumOutOfRange) => {
            return Err(MarshalError::QuorumOutOfRange);
        },
    };
    let zero_uid: [u8; 32] = [0u8; 32];
    let request = match UnstakingRequest::new(
        inputs,
        outputs,
        custodians,
        raw.fee_rate,
        raw.rbf,
        0,
        zero_uid,
    ) {
        Ok(request) => request,
        Err(_) => {
            return Err(MarshalError::ZeroFeeRate);
        },
    };
    assert(zero_uid@ =~= Seq::new(32, |i: int| 0u8));
    let settings = BuilderSettings {
        tag: tag.clone(),
        service_tag: service_tag.clone(),
        version: raw.version,
        network_kind: raw.network_kind,
    };
    Ok(Marshalled { settings, request })
}

/// Why the transaction builder could not satisfy a request.
#[derive(Clone, Copy, Debug, PartialEq, Eq, Structural)]
pub enum BuildFailure {
    /// The inputs do not cover the outputs and the fee.
    InsufficientFunds,
    /// A script of the request cannot be spent or paid to.
    InvalidScript,
    /// The builder rejected a custodian key.
    MalformedKey,
    /// Any other refusal of the builder.
    Other,
}

/// What the boundary hands back to the foreign caller: the serialized
/// transaction, owned by the caller from then on, or the null marker. The
/// null marker is distinct from a transaction of zero bytes.
#[derive(Debug)]
pub enum ResultBuffer {
    Null,
    Owned(Vec<u8>),
}

impl View for ResultBuffer {
    type V = Option<Seq<u8>>;

    open spec fn view(&self) -> Option<Seq<u8>> {
        match self {
            ResultBuffer::Null => None,
            ResultBuffer::Owned(bytes) => Some(bytes@),
        }
    }
}

impl ResultBuffer {
    /// Whether this is the null marker.
    pub fn is_null(&self) -> (null: bool)
        ensures
            null == (self@ is None),
    {
        match self {
            ResultBuffer::Null => true,
            ResultBuffer::Owned(_) => false,
        }
    }

    /// The number of bytes the caller receives; zero for the null marker.
    pub fn len(&self) -> (len: usize)
        ensures
            len == (match self@ {
                Some(bytes) => bytes.len(),
                None => 0,
            }),
    {
        match self {
            ResultBuffer::Null => 0,
            ResultBuffer::Owned(bytes) => bytes.len(),
        }
    }

    /// Gives up the bytes, if there are any.
    pub fn into_bytes(self) -> (bytes: Option<Vec<u8>>)
        ensures
            bytes is Some == self@ is Some,
            bytes matches Some(b) ==> self@ == Some(b@),
    {
        match self {
            ResultBuffer::Null => None,
            ResultBuffer::Owned(bytes) => Some(bytes),
        }
    }
}

/// The buffer that answers a builder outcome: the serialized transaction,
/// byte for byte, or the null marker.
pub open spec fn buffer_model(outcome: Result<Vec<u8>, BuildFailure>) -> Option<Seq<u8>> {
    match outcome {
        Ok(bytes) => Some(bytes@),
        Err(_) => None,
    }
}

/// Turns the builder's outcome into the buffer for the foreign caller. A
/// failure never yields bytes, and a success yields exactly the serialized
/// transaction, so the buffer has its length and decodes to the same
/// transaction.
pub fn result_buffer_for(outcome: Result<Vec<u8>, BuildFailure>) -> (buffer: ResultBuffer)
    ensures
        buffer@ == buffer_model(outcome),
{
    match outcome {
        Ok(bytes) => ResultBuffer::Owned(bytes),
        Err(_) => ResultBuffer::Null,
    }
}

/// Builds an unstaking transaction that only the custodians must sign, from a
/// raw request. The request is validated first; `builder` is called only with
/// a valid request and is called at most once. Any defect of the request and
/// any failure of the builder give the null marker.
pub fn build_with_only_covenants<B>(raw: &RawRequest, builder: B) -> (buffer: ResultBuffer) where
    B: Fn(&BuilderSettings, &UnstakingRequest) -> Result<Vec<u8>, BuildFailure>,

    requires
        forall|settings: &BuilderSettings, request: &UnstakingRequest|
            request.wf() ==> call_requires(builder, (settings, request)),
    ensures
        defect(*raw) is Some ==> buffer@ is None,
        defect(*raw) is None ==> exists|
            settings: BuilderSettings,
            request: UnstakingRequest,
            outcome: Result<Vec<u8>, BuildFailure>,
        |
            settings@ == settings_model(*raw) && request@ == request_model(*raw) && request.wf()
                && #[trigger] call_ensures(builder, (&settings, &request), outcome) && buffer@
                == buffer_model(outcome),
{
    match marshal_request(raw) {
        Err(_) => ResultBuffer::Null,
        Ok(marshalled) => {
            let outcome = builder(&marshalled.settings, &marshalled.request);
            let ghost witness = outcome;
            let buffer = result_buffer_for(outcome);
            assert(call_ensures(builder, (&marshalled.settings, &marshalled.request), witness));
            buffer
        },
    }
}

} // verus!
