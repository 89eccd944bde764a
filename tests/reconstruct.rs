use alloy::primitives::{keccak256, Address, Bytes, FixedBytes, U256};
use alloy::sol_types::SolValue;
use intent_filler::credential::{AuthorizationCredential, ConversionError};
use intent_filler::order::{
    reconstruct, LogEvent, Order, ReconstructError, Selectors, DELEGATION_EVENT_SIGNATURE,
    OPEN_EVENT_SIGNATURE,
};

type Output = (FixedBytes<32>, U256, FixedBytes<32>, U256);

fn open_data(fills: &[Vec<u8>]) -> Vec<u8> {
    let instructions: Vec<(u64, FixedBytes<32>, Bytes)> = fills
        .iter()
        .map(|d| (10u64, FixedBytes::<32>::repeat_byte(0x0d), Bytes::from(d.clone())))
        .collect();
    let resolved = (
        Address::repeat_byte(0xaa),
        U256::from(1u64),
        0u32,
        u32::MAX,
        FixedBytes::<32>::repeat_byte(0x01),
        Vec::<Output>::new(),
        Vec::<Output>::new(),
        instructions,
    );
    (resolved,).abi_encode_sequence()
}

fn open_log(selectors: &Selectors, order_id: u8, fills: &[Vec<u8>]) -> LogEvent {
    LogEvent {
        address: vec![0xaa; 20],
        topics: vec![selectors.open.clone(), vec![order_id; 32]],
        data: open_data(fills),
        transaction_hash: Some(vec![0x77; 32]),
    }
}

fn delegation_log(selectors: &Selectors, auths: Vec<(U256, Address, U256, Bytes)>) -> LogEvent {
    LogEvent {
        address: vec![0xaa; 20],
        topics: vec![selectors.delegation.clone()],
        data: ((auths,),).abi_encode_sequence(),
        transaction_hash: Some(vec![0x77; 32]),
    }
}

fn signature(v: u8) -> Vec<u8> {
    let mut sig = vec![0x33u8; 32];
    sig.extend_from_slice(&[0x44u8; 32]);
    sig.push(v);
    sig
}

fn cred_a_wire() -> (U256, Address, U256, Bytes) {
    (U256::from(1u64), Address::repeat_byte(0x22), U256::from(7u64), Bytes::from(signature(27)))
}

fn cred_a() -> AuthorizationCredential {
    let mut chain_id = vec![0u8; 32];
    chain_id[31] = 1;
    AuthorizationCredential {
        chain_id,
        delegate_address: vec![0x22; 20],
        nonce: 7,
        r: vec![0x33; 32],
        s: vec![0x44; 32],
        y_parity: false,
    }
}

#[test]
fn scenario_open_event_only() {
    let sel = Selectors::standard();
    let logs = vec![open_log(&sel, 0x01, &[vec![0xde, 0xad]])];
    let order = reconstruct(&logs, &sel).unwrap();
    assert_eq!(
        order,
        Order { id: vec![0x01; 32], fill_data: vec![0xde, 0xad], authorization_list: vec![] }
    );
}

#[test]
fn scenario_open_and_delegation() {
    let sel = Selectors::standard();
    let logs = vec![
        open_log(&sel, 0x01, &[vec![0xde, 0xad]]),
        delegation_log(&sel, vec![cred_a_wire()]),
    ];
    let order = reconstruct(&logs, &sel).unwrap();
    assert_eq!(
        order,
        Order { id: vec![0x01; 32], fill_data: vec![0xde, 0xad], authorization_list: vec![cred_a()] }
    );
}

#[test]
fn scenario_delegation_only() {
    let sel = Selectors::standard();
    let logs = vec![delegation_log(&sel, vec![cred_a_wire()])];
    assert_eq!(reconstruct(&logs, &sel), Err(ReconstructError::MissingOpenEvent));
}

#[test]
fn empty_logs_miss_open_event() {
    let sel = Selectors::standard();
    assert_eq!(reconstruct(&vec![], &sel), Err(ReconstructError::MissingOpenEvent));
}

#[test]
fn unrelated_logs_miss_open_event() {
    let sel = Selectors::standard();
    let mut log = open_log(&sel, 0x01, &[vec![1]]);
    log.topics[0] = vec![0x99; 32];
    let no_topics = LogEvent { topics: vec![], ..log.clone() };
    assert_eq!(reconstruct(&vec![log, no_topics], &sel), Err(ReconstructError::MissingOpenEvent));
}

#[test]
fn delegation_before_open_event_is_found() {
    let sel = Selectors::standard();
    let logs = vec![
        delegation_log(&sel, vec![cred_a_wire()]),
        open_log(&sel, 0x05, &[vec![0x01]]),
    ];
    let order = reconstruct(&logs, &sel).unwrap();
    assert_eq!(order.id, vec![0x05; 32]);
    assert_eq!(order.authorization_list, vec![cred_a()]);
}

#[test]
fn no_fill_instruction() {
    let sel = Selectors::standard();
    let logs = vec![open_log(&sel, 0x01, &[])];
    assert_eq!(reconstruct(&logs, &sel), Err(ReconstructError::NoFillInstruction));
}

#[test]
fn first_fill_instruction_is_taken() {
    let sel = Selectors::standard();
    let logs = vec![open_log(&sel, 0x01, &[vec![0x01, 0x02], vec![0x03]])];
    assert_eq!(reconstruct(&logs, &sel).unwrap().fill_data, vec![0x01, 0x02]);
}

#[test]
fn first_open_event_is_taken() {
    let sel = Selectors::standard();
    let logs = vec![open_log(&sel, 0x02, &[vec![0x02]]), open_log(&sel, 0x03, &[vec![0x03]])];
    let order = reconstruct(&logs, &sel).unwrap();
    assert_eq!(order.id, vec![0x02; 32]);
    assert_eq!(order.fill_data, vec![0x02]);
}

#[test]
fn garbage_open_data_is_malformed() {
    let sel = Selectors::standard();
    let mut log = open_log(&sel, 0x01, &[vec![1]]);
    log.data = vec![0xff; 7];
    assert_eq!(reconstruct(&vec![log], &sel), Err(ReconstructError::MalformedPayload));
}

#[test]
fn open_event_without_order_id_is_malformed() {
    let sel = Selectors::standard();
    let mut log = open_log(&sel, 0x01, &[vec![1]]);
    log.topics.truncate(1);
    assert_eq!(reconstruct(&vec![log], &sel), Err(ReconstructError::MalformedPayload));
}

#[test]
fn garbage_delegation_data_is_malformed() {
    let sel = Selectors::standard();
    let mut deleg = delegation_log(&sel, vec![cred_a_wire()]);
    deleg.data = vec![0x01; 3];
    let logs = vec![open_log(&sel, 0x01, &[vec![1]]), deleg];
    assert_eq!(reconstruct(&logs, &sel), Err(ReconstructError::MalformedPayload));
}

#[test]
fn bad_signature_fails_authorization() {
    let sel = Selectors::standard();
    let mut bad = cred_a_wire();
    bad.3 = Bytes::from(signature(2));
    let logs = vec![
        open_log(&sel, 0x01, &[vec![1]]),
        delegation_log(&sel, vec![cred_a_wire(), bad]),
    ];
    assert_eq!(
        reconstruct(&logs, &sel),
        Err(ReconstructError::BadAuthorization(ConversionError::MalformedSignature))
    );
}

#[test]
fn large_nonce_fails_authorization() {
    let sel = Selectors::standard();
    let mut big = cred_a_wire();
    big.2 = U256::from(u64::MAX) + U256::from(1u64);
    let logs = vec![open_log(&sel, 0x01, &[vec![1]]), delegation_log(&sel, vec![big])];
    assert_eq!(
        reconstruct(&logs, &sel),
        Err(ReconstructError::BadAuthorization(ConversionError::NonceOverflow))
    );
}

#[test]
fn reconstruction_is_deterministic() {
    let sel = Selectors::standard();
    let logs = vec![
        open_log(&sel, 0x01, &[vec![0xde, 0xad]]),
        delegation_log(&sel, vec![cred_a_wire()]),
    ];
    assert_eq!(reconstruct(&logs, &sel), reconstruct(&logs, &sel));
}

#[test]
fn without_delegation_the_list_is_empty() {
    let sel = Selectors::standard();
    let other = LogEvent { topics: vec![vec![0x10; 32]], ..open_log(&sel, 0x09, &[vec![9]]) };
    let logs = vec![other, open_log(&sel, 0x09, &[vec![9], vec![8]])];
    let order = reconstruct(&logs, &sel).unwrap();
    assert!(order.authorization_list.is_empty());
}

#[test]
fn standard_selectors_are_event_digests() {
    let sel = Selectors::standard();
    assert_eq!(sel.open, keccak256(OPEN_EVENT_SIGNATURE.as_bytes()).to_vec());
    assert_eq!(sel.delegation, keccak256(DELEGATION_EVENT_SIGNATURE.as_bytes()).to_vec());
    assert_ne!(sel.open, sel.delegation);
}
