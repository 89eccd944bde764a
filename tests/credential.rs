use intent_filler::bytes::{be_to_u64, u64_to_be};
use intent_filler::credential::{
    from_wire, from_wire_list, to_wire, to_wire_list, AuthorizationCredential, ConversionError,
    WireCredential,
};

fn cred(nonce: u64, y_parity: bool) -> AuthorizationCredential {
    let mut chain_id = vec![0u8; 32];
    chain_id[31] = 0x89;
    AuthorizationCredential {
        chain_id,
        delegate_address: vec![0x5a; 20],
        nonce,
        r: (0..32).collect(),
        s: (100..132).collect(),
        y_parity,
    }
}

fn wire(nonce: Vec<u8>, signature: Vec<u8>) -> WireCredential {
    WireCredential { chain_id: vec![0u8; 32], code_address: vec![0x11; 20], nonce, signature }
}

fn sig_with_v(v: u8) -> Vec<u8> {
    let mut s = vec![0x01u8; 64];
    s.push(v);
    s
}

#[test]
fn wire_round_trip() {
    for c in [cred(0, false), cred(7, true), cred(u64::MAX, false)] {
        assert_eq!(from_wire(&to_wire(&c)), Ok(c.clone()));
    }
}

#[test]
fn to_wire_layout() {
    let w = to_wire(&cred(0x0102, true));
    let mut nonce = vec![0u8; 30];
    nonce.extend_from_slice(&[0x01, 0x02]);
    assert_eq!(w.nonce, nonce);
    assert_eq!(w.code_address, vec![0x5a; 20]);
    assert_eq!(w.signature.len(), 65);
    assert_eq!(&w.signature[..32], &(0..32).collect::<Vec<u8>>()[..]);
    assert_eq!(&w.signature[32..64], &(100..132).collect::<Vec<u8>>()[..]);
    assert_eq!(w.signature[64], 28);
    assert_eq!(to_wire(&cred(1, false)).signature[64], 27);
}

#[test]
fn parity_from_v() {
    let nonce = u64_to_be(3, 32);
    let cases = [(0u8, false), (1, true), (27, false), (28, true), (35, false), (36, true)];
    for (v, parity) in cases {
        let c = from_wire(&wire(nonce.clone(), sig_with_v(v))).unwrap();
        assert_eq!(c.y_parity, parity, "v = {}", v);
        assert_eq!(c.nonce, 3);
        assert_eq!(c.r, vec![0x01; 32]);
    }
}

#[test]
fn invalid_v_is_malformed() {
    let nonce = u64_to_be(3, 32);
    for v in [2u8, 26, 29, 34] {
        assert_eq!(
            from_wire(&wire(nonce.clone(), sig_with_v(v))),
            Err(ConversionError::MalformedSignature)
        );
    }
}

#[test]
fn wrong_signature_length_is_malformed() {
    let nonce = u64_to_be(3, 32);
    assert_eq!(from_wire(&wire(nonce.clone(), vec![1u8; 64])), Err(ConversionError::MalformedSignature));
    assert_eq!(from_wire(&wire(nonce.clone(), vec![27u8; 66])), Err(ConversionError::MalformedSignature));
    assert_eq!(from_wire(&wire(nonce, vec![])), Err(ConversionError::MalformedSignature));
}

#[test]
fn nonce_overflow() {
    let mut nonce = vec![0u8; 32];
    nonce[23] = 1;
    assert_eq!(from_wire(&wire(nonce, sig_with_v(27))), Err(ConversionError::NonceOverflow));
    let max = vec![0xffu8; 32];
    assert_eq!(from_wire(&wire(max, sig_with_v(27))), Err(ConversionError::NonceOverflow));
}

#[test]
fn largest_nonce_fits() {
    let mut nonce = vec![0u8; 24];
    nonce.extend_from_slice(&[0xff; 8]);
    assert_eq!(from_wire(&wire(nonce, sig_with_v(27))).unwrap().nonce, u64::MAX);
}

#[test]
fn list_fails_on_first_bad_credential() {
    let good = to_wire(&cred(1, false));
    let mut big = vec![0xffu8; 32];
    big[0] = 0x7f;
    let overflow = wire(big, sig_with_v(27));
    let malformed = wire(u64_to_be(1, 32), vec![0u8; 3]);
    assert_eq!(
        from_wire_list(&vec![good.clone(), overflow.clone(), malformed.clone()]),
        Err(ConversionError::NonceOverflow)
    );
    assert_eq!(
        from_wire_list(&vec![good, malformed, overflow]),
        Err(ConversionError::MalformedSignature)
    );
}

#[test]
fn list_round_trip() {
    let creds = vec![cred(1, false), cred(2, true)];
    assert_eq!(from_wire_list(&to_wire_list(&creds)), Ok(creds));
    assert_eq!(from_wire_list(&vec![]), Ok(vec![]));
}

#[test]
fn big_endian_reads() {
    assert_eq!(be_to_u64(&vec![]), Some(0));
    assert_eq!(be_to_u64(&vec![0x01, 0x00]), Some(256));
    assert_eq!(be_to_u64(&vec![0xff; 8]), Some(u64::MAX));
    assert_eq!(be_to_u64(&vec![0x01, 0, 0, 0, 0, 0, 0, 0, 0]), None);
    assert_eq!(be_to_u64(&vec![0, 0, 0, 0, 0, 0, 0, 0, 0x05]), Some(5));
    assert_eq!(u64_to_be(0x0a0b, 3), vec![0x00, 0x0a, 0x0b]);
}
