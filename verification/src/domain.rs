//! The values an unstaking request is made of.

use vstd::prelude::*;
use crate::keys::{CustodianKeySet, CustodianKeySetView};

verus! {

/// The views of a sequence of values, in order.
pub open spec fn views<T: View>(items: Seq<T>) -> Seq<T::V> {
    Seq::new(items.len(), |i: int| items[i]@)
}

/// Why a domain value could not be formed.
#[derive(Clone, Copy, Debug, PartialEq, Eq, Structural)]
pub enum ValueError {
    /// An output must carry a positive amount.
    ZeroAmount,
    /// The fee rate must be positive.
    ZeroFeeRate,
}

/// The mathematical content of a [`PreviousOutpoint`].
pub ghost struct PreviousOutpointView {
    pub txid: Seq<u8>,
    pub vout: nat,
    pub script_pubkey: Seq<u8>,
    pub amount: nat,
}

/// A spendable covenant-locked output: where it is, which script owns it and
/// how much it holds, in the smallest currency unit.
#[derive(Debug)]
pub struct PreviousOutpoint {
    txid: [u8; 32],
    vout: u32,
    script_pubkey: Vec<u8>,
    amount: u64,
}

impl View for PreviousOutpoint {
    type V = PreviousOutpointView;

    closed spec fn view(&self) -> PreviousOutpointView {
        PreviousOutpointView {
            txid: self.txid@,
            vout: self.vout as nat,
            script_pubkey: self.script_pubkey@,
            amount: self.amount as nat,
        }
    }
}

impl PreviousOutpoint {
    /// Describes the output `vout` of transaction `txid`.
    pub fn new(txid: [u8; 32], vout: u32, script_pubkey: Vec<u8>, amount: u64) -> (outpoint: Self)
        ensures
            outpoint@ == (PreviousOutpointView {
                txid: txid@,
                vout: vout as nat,
                script_pubkey: script_pubkey@,
                amount: amount as nat,
            }),
    {
        PreviousOutpoint { txid, vout, script_pubkey, amount }
    }

    /// The identifier of the transaction that created the output.
    pub fn txid(&self) -> (txid: &[u8; 32])
        ensures
            txid@ == self@.txid,
    {
        &self.txid
    }

    /// The index of the output in its transaction.
    pub fn vout(&self) -> (vout: u32)
        ensures
            vout as nat == self@.vout,
    {
        self.vout
    }

    /// The locking script of the output.
    pub fn script_pubkey(&self) -> (script: &Vec<u8>)
        ensures
            script@ == self@.script_pubkey,
    {
        &self.script_pubkey
    }

    /// The amount held by the output.
    pub fn amount(&self) -> (amount: u64)
        ensures
            amount as nat == self@.amount,
    {
        self.amount
    }
}

impl Clone for PreviousOutpoint {
    fn clone(&self) -> (copy: Self)
        ensures
            copy@ == self@,
    {
        PreviousOutpoint {
            txid: self.txid,
            vout: self.vout,
            script_pubkey: self.script_pubkey.clone(),
            amount: self.amount,
        }
    }
}

/// The mathematical content of a [`DesiredOutput`].
pub ghost struct DesiredOutputView {
    pub script_pubkey: Seq<u8>,
    pub amount: nat,
}

/// An output the unstaking transaction must pay: a destination script and a
/// positive amount.
#[derive(Debug)]
pub struct DesiredOutput {
    script_pubkey: Vec<u8>,
    amount: u64,
}

impl View for DesiredOutput {
    type V = DesiredOutputView;

    closed spec fn view(&self) -> DesiredOutputView {
        DesiredOutputView { script_pubkey: self.script_pubkey@, amount: self.amount as nat }
    }
}

impl DesiredOutput {
    /// An output is well formed when it pays something.
    pub open spec fn wf(&self) -> bool {
        self@.amount > 0
    }

    /// Forms an output; a zero amount is rejected.
    pub fn new(script_pubkey: Vec<u8>, amount: u64) -> (res: Result<Self, ValueError>)
        ensures
            res is Ok <==> amount > 0,
            res matches Ok(output) ==> output.wf() && output@ == (DesiredOutputView {
                script_pubkey: script_pubkey@,
                amount: amount as nat,
            }),
            res matches Err(e) ==> e == ValueError::ZeroAmount,
    {
        if amount == 0 {
            Err(ValueError::ZeroAmount)
        } else {
            Ok(DesiredOutput { script_pubkey, amount })
        }
    }

    /// The destination script.
    pub fn script_pubkey(&self) -> (script: &Vec<u8>)
        ensures
            script@ == self@.script_pubkey,
    {
        &self.script_pubkey
    }

    /// The amount to pay.
    pub fn amount(&self) -> (amount: u64)
        ensures
            amount as nat == self@.amount,
    {
        self.amount
    }
}

impl Clone for DesiredOutput {
    fn clone(&self) -> (copy: Self)
        ensures
            copy@ == self@,
    {
        DesiredOutput { script_pubkey: self.script_pubkey.clone(), amount: self.amount }
    }
}

/// The mathematical content of an [`UnstakingRequest`].
pub ghost struct UnstakingRequestView {
    pub inputs: Seq<PreviousOutpointView>,
    pub outputs: Seq<DesiredOutputView>,
    pub custodians: CustodianKeySetView,
    pub fee_rate: nat,
    pub rbf: bool,
    pub session_sequence: nat,
    pub custodian_group_uid: Seq<u8>,
}

impl UnstakingRequestView {
    /// Every output pays something, the custodian set is valid and the fee
    /// rate is positive.
    pub open spec fn wf(self) -> bool {
        &&& forall|i: int| 0 <= i < self.outputs.len() ==> (#[trigger] self.outputs[i]).amount > 0
        &&& self.custodians.wf()
        &&& self.fee_rate > 0
    }
}

/// Everything the transaction builder needs to construct one unstaking
/// transaction. One request yields exactly one transaction.
#[derive(Debug)]
pub struct UnstakingRequest {
    inputs: Vec<PreviousOutpoint>,
    outputs: Vec<DesiredOutput>,
    custodians: CustodianKeySet,
    fee_rate: u64,
    rbf: bool,
    session_sequence: u64,
    custodian_group_uid: [u8; 32],
}

impl View for UnstakingRequest {
    type V = UnstakingRequestView;

    closed spec fn view(&self) -> UnstakingRequestView {
        UnstakingRequestView {
            inputs: views(self.inputs@),
            outputs: views(self.outputs@),
            custodians: self.custodians@,
            fee_rate: self.fee_rate as nat,
            rbf: self.rbf,
            session_sequence: self.session_sequence as nat,
            custodian_group_uid: self.custodian_group_uid@,
        }
    }
}

impl UnstakingRequest {
    /// The validity of the request, stated over its content.
    pub open spec fn wf(&self) -> bool {
        self@.wf()
    }

    /// Forms a request of valid outputs, as [`DesiredOutput::new`] makes
    /// them; a zero fee rate is rejected.
    pub fn new(
        inputs: Vec<PreviousOutpoint>,
        outputs: Vec<DesiredOutput>,
        custodians: CustodianKeySet,
        fee_rate: u64,
        rbf: bool,
        session_sequence: u64,
        custodian_group_uid: [u8; 32],
    ) -> (res: Result<Self, ValueError>)
        requires
            forall|i: int| 0 <= i < outputs.len() ==> (#[trigger] outputs[i]).wf(),
        ensures
            res is Ok <==> fee_rate > 0,
            res matches Ok(request) ==> request.wf() && request@ == (UnstakingRequestView {
                inputs: views(inputs@),
                outputs: views(outputs@),
                custodians: custodians@,
                fee_rate: fee_rate as nat,
                rbf,
                session_sequence: session_sequence as nat,
                custodian_group_uid: custodian_group_uid@,
            }),
            res matches Err(e) ==> e == ValueError::ZeroFeeRate,
    {
        proof {
            use_type_invariant(&custodians);
        }
        if fee_rate == 0 {
            return Err(ValueError::ZeroFeeRate);
        }
        let request = UnstakingRequest {
            inputs,
            outputs,
            custodians,
            fee_rate,
            rbf,
            session_sequence,
            custodian_group_uid,
        };
        proof {
            assert forall|i: int| 0 <= i < request@.outputs.len() implies (
            #[trigger] request@.outputs[i]).amount > 0 by {
                assert(request.outputs@[i].wf());
            }
        }
        Ok(request)
    }

    /// The outputs to spend.
    pub fn inputs(&self) -> (inputs: &Vec<PreviousOutpoint>)
        ensures
            views(inputs@) == self@.inputs,
    {
        &self.inputs
    }

    /// The outputs to create.
    pub fn outputs(&self) -> (outputs: &Vec<DesiredOutput>)
        ensures
            views(outputs@) == self@.outputs,
    {
        &self.outputs
    }

    /// The custodian keys and their quorum.
    pub fn custodians(&self) -> (custodians: &CustodianKeySet)
        ensures
            custodians@ == self@.custodians,
    {
        &self.custodians
    }

    /// The fee rate, in fee units per weight unit.
    pub fn fee_rate(&self) -> (fee_rate: u64)
        ensures
            fee_rate as nat == self@.fee_rate,
    {
        self.fee_rate
    }

    /// Whether the transaction may later be replaced by one paying more.
    pub fn rbf(&self) -> (rbf: bool)
        ensures
            rbf == self@.rbf,
    {
        self.rbf
    }

    /// The session sequence number.
    pub fn session_sequence(&self) -> (sequence: u64)
        ensures
            sequence as nat == self@.session_sequence,
    {
        self.session_sequence
    }

    /// The identifier of the custodian group.
    pub fn custodian_group_uid(&self) -> (uid: &[u8; 32])
        ensures
            uid@ == self@.custodian_group_uid,
    {
        &self.custodian_group_uid
    }
}

} // verus!
