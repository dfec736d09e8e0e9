use unstaking::domain::{DesiredOutput, PreviousOutpoint, UnstakingRequest, ValueError};
use unstaking::keys::{CustodianKey, CustodianKeySet};

fn bytes_of(text: &str) -> Vec<u8> {
    (0..text.len() / 2).map(|i| u8::from_str_radix(&text[2 * i..2 * i + 2], 16).unwrap()).collect()
}

fn custodians() -> CustodianKeySet {
    let one = "0279be667ef9dcbbac55a06295ce870b07029bfcdb2dce28d959f2815b16f81798";
    let two = "02c6047f9441ed7d6d3045406e95c07cd85c778e4b8cef3ca7abac09b95c709ee5";
    let keys = vec![
        CustodianKey::from_slice(&bytes_of(one)).unwrap(),
        CustodianKey::from_slice(&bytes_of(two)).unwrap(),
    ];
    CustodianKeySet::new(keys, 1).unwrap()
}

#[test]
fn outpoint_holds_what_it_was_given() {
    let outpoint = PreviousOutpoint::new([3u8; 32], 7, vec![0x51], 42);
    assert_eq!(outpoint.txid(), &[3u8; 32]);
    assert_eq!(outpoint.vout(), 7);
    assert_eq!(outpoint.script_pubkey(), &vec![0x51]);
    assert_eq!(outpoint.amount(), 42);
    let copy = outpoint.clone();
    assert_eq!(copy.txid(), &[3u8; 32]);
    assert_eq!(copy.vout(), 7);
    assert_eq!(copy.script_pubkey(), &vec![0x51]);
    assert_eq!(copy.amount(), 42);
}

#[test]
fn output_must_pay_something() {
    assert_eq!(DesiredOutput::new(vec![0x51], 0).err(), Some(ValueError::ZeroAmount));
    let output = DesiredOutput::new(vec![0x51, 0x52], 1).unwrap();
    assert_eq!(output.script_pubkey(), &vec![0x51, 0x52]);
    assert_eq!(output.amount(), 1);
    let copy = output.clone();
    assert_eq!(copy.script_pubkey(), &vec![0x51, 0x52]);
    assert_eq!(copy.amount(), 1);
    assert_eq!(DesiredOutput::new(Vec::new(), u64::MAX).unwrap().amount(), u64::MAX);
}

#[test]
fn request_must_pay_a_fee() {
    let inputs = vec![PreviousOutpoint::new([1u8; 32], 0, vec![0x51], 10)];
    let outputs = vec![DesiredOutput::new(vec![0x52], 10).unwrap()];
    let rejected = UnstakingRequest::new(inputs, outputs, custodians(), 0, false, 0, [0u8; 32]);
    assert_eq!(rejected.err(), Some(ValueError::ZeroFeeRate));
}

#[test]
fn request_holds_what_it_was_given() {
    let inputs = vec![
        PreviousOutpoint::new([1u8; 32], 0, vec![0x51], 10),
        PreviousOutpoint::new([2u8; 32], 1, vec![0x51], 20),
    ];
    let outputs = vec![DesiredOutput::new(vec![0x52], 30).unwrap()];
    let request =
        UnstakingRequest::new(inputs, outputs, custodians(), 5, true, 9, [8u8; 32]).unwrap();
    assert_eq!(request.inputs().len(), 2);
    assert_eq!(request.inputs()[1].txid(), &[2u8; 32]);
    assert_eq!(request.inputs()[1].vout(), 1);
    assert_eq!(request.outputs().len(), 1);
    assert_eq!(request.outputs()[0].amount(), 30);
    assert_eq!(request.custodians().len(), 2);
    assert_eq!(request.custodians().quorum(), 1);
    assert_eq!(request.fee_rate(), 5);
    assert!(request.rbf());
    assert_eq!(request.session_sequence(), 9);
    assert_eq!(request.custodian_group_uid(), &[8u8; 32]);
}
