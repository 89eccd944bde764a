//! Delegation credentials: the domain form and the wire form that the
//! delegation-requested event carries, and the conversions between them.
use crate::bytes::{
    be_bytes, be_to_u64, be_value, copy_bytes, lemma_be_bytes_len, lemma_be_value_of_bytes, pow256,
    u64_to_be,
};
use alloy::primitives::{PrimitiveSignature, U256};
use vstd::prelude::*;

verus! {

/// A signed grant that lets `delegate_address` act as the signer's account
/// for one transaction.
#[derive(Clone, Debug, PartialEq, Eq)]
pub struct AuthorizationCredential {
    /// 32-byte big-endian chain id.
    pub chain_id: Vec<u8>,
    /// 20-byte address of the delegate code.
    pub delegate_address: Vec<u8>,
    pub nonce: u64,
    /// 32-byte big-endian `r` of the signature.
    pub r: Vec<u8>,
    /// 32-byte big-endian `s` of the signature.
    pub s: Vec<u8>,
    pub y_parity: bool,
}

/// A credential as the settlement contract encodes it.
#[derive(Clone, Debug, PartialEq, Eq)]
pub struct WireCredential {
    /// 32-byte big-endian chain id.
    pub chain_id: Vec<u8>,
    /// 20-byte address of the delegate code.
    pub code_address: Vec<u8>,
    /// 32-byte big-endian nonce.
    pub nonce: Vec<u8>,
    /// Raw signature bytes: `r`, `s`, then `v`.
    pub signature: Vec<u8>,
}

#[derive(Clone, Copy, Debug, PartialEq, Eq, Structural)]
pub enum ConversionError {
    /// The signature is not 65 bytes ending in a recognised `v` value.
    MalformedSignature,
    /// The nonce does not fit in 64 bits.
    NonceOverflow,
}

pub struct CredentialView {
    pub chain_id: Seq<u8>,
    pub delegate_address: Seq<u8>,
    pub nonce: u64,
    pub r: Seq<u8>,
    pub s: Seq<u8>,
    pub y_parity: bool,
}

pub struct WireView {
    pub chain_id: Seq<u8>,
    pub code_address: Seq<u8>,
    pub nonce: Seq<u8>,
    pub signature: Seq<u8>,
}

impl View for AuthorizationCredential {
    type V = CredentialView;

    open spec fn view(&self) -> CredentialView {
        CredentialView {
            chain_id: self.chain_id@,
            delegate_address: self.delegate_address@,
            nonce: self.nonce,
            r: self.r@,
            s: self.s@,
            y_parity: self.y_parity,
        }
    }
}

impl View for WireCredential {
    type V = WireView;

    open spec fn view(&self) -> WireView {
        WireView {
            chain_id: self.chain_id@,
            code_address: self.code_address@,
            nonce: self.nonce@,
            signature: self.signature@,
        }
    }
}

impl CredentialView {
    /// Every byte field has the width of the value it holds.
    pub open spec fn wf(self) -> bool {
        &&& self.chain_id.len() == 32
        &&& self.delegate_address.len() == 20
        &&& self.r.len() == 32
        &&& self.s.len() == 32
    }
}

impl WireView {
    /// Every fixed-width field has its width.
    pub open spec fn wf(self) -> bool {
        &&& self.chain_id.len() == 32
        &&& self.code_address.len() == 20
        &&& self.nonce.len() == 32
    }
}

/// The `v` values that a raw signature may end in: bare (0, 1), legacy
/// (27, 28) and replay-protected (35 and above).
pub open spec fn valid_v(v: u8) -> bool {
    v == 0 || v == 1 || v == 27 || v == 28 || v >= 35
}

/// The y-parity that a valid `v` value stands for.
pub open spec fn parity_of(v: u8) -> bool {
    if v <= 1 {
        v == 1
    } else {
        v % 2 == 0
    }
}

/// The legacy `v` value for a y-parity.
pub open spec fn v_byte(y_parity: bool) -> u8 {
    if y_parity {
        28
    } else {
        27
    }
}

/// A raw signature that parses.
pub open spec fn signature_ok(sig: Seq<u8>) -> bool {
    sig.len() == 65 && valid_v(sig[64])
}

pub open spec fn to_wire_spec(c: CredentialView) -> WireView {
    WireView {
        chain_id: c.chain_id,
        code_address: c.delegate_address,
        nonce: be_bytes(c.nonce as nat, 32),
        signature: c.r + c.s + seq![v_byte(c.y_parity)],
    }
}

pub open spec fn from_wire_spec(w: WireView) -> Result<CredentialView, ConversionError> {
    if !signature_ok(w.signature) {
        Err(ConversionError::MalformedSignature)
    } else if be_value(w.nonce) > u64::MAX {
        Err(ConversionError::NonceOverflow)
    } else {
        Ok(
            CredentialView {
                chain_id: w.chain_id,
                delegate_address: w.code_address,
                nonce: be_value(w.nonce) as u64,
                r: w.signature.subrange(0, 32),
                s: w.signature.subrange(32, 65 - 1),
                y_parity: parity_of(w.signature[64]),
            },
        )
    }
}

/// Converts each credential in order; the first failure is the result.
pub open spec fn from_wire_all(ws: Seq<WireView>) -> Result<Seq<CredentialView>, ConversionError>
    decreases ws.len(),
{
    if ws.len() == 0 {
        Ok(seq![])
    } else {
        match from_wire_all(ws.drop_last()) {
            Err(e) => Err(e),
            Ok(cs) => match from_wire_spec(ws.last()) {
                Err(e) => Err(e),
                Ok(c) => Ok(cs.push(c)),
            },
        }
    }
}

pub open spec fn cred_views(cs: Seq<AuthorizationCredential>) -> Seq<CredentialView> {
    cs.map_values(|c: AuthorizationCredential| c@)
}

pub open spec fn wire_views(ws: Seq<WireCredential>) -> Seq<WireView> {
    ws.map_values(|w: WireCredential| w@)
}

/// Relies on alloy's `PrimitiveSignature::from_raw` (reached through
/// `TryFrom<&[u8]>`): it takes exactly 65 bytes, reads `r` and `s` as
/// big-endian words, and maps the last byte through `normalize_v`.
#[verifier::external_body]
fn parse_signature(raw: &[u8]) -> (r: Option<(Vec<u8>, Vec<u8>, bool)>)
    ensures
        r is Some <==> signature_ok(raw@),
        r matches Some((sr, ss, y)) ==> sr@ == raw@.subrange(0, 32) && ss@ == raw@.subrange(32, 64)
            && y == parity_of(raw@[64]),
{
    match PrimitiveSignature::try_from(raw) {
        Ok(sig) => Some((sig.r().to_be_bytes::<32>().to_vec(), sig.s().to_be_bytes::<32>().to_vec(), sig.v())),
        Err(_) => None,
    }
}

/// Relies on alloy's `PrimitiveSignature::as_bytes`: `r` and `s` as 32
/// big-endian bytes each, then `27 + y_parity`.
#[verifier::external_body]
fn signature_bytes(r: &Vec<u8>, s: &Vec<u8>, y_parity: bool) -> (out: Vec<u8>)
    requires
        r@.len() == 32,
        s@.len() == 32,
    ensures
        out@ == r@ + s@ + seq![v_byte(y_parity)],
{
    PrimitiveSignature::new(U256::from_be_slice(r), U256::from_be_slice(s), y_parity).as_bytes().to_vec()
}

/// The wire form of a credential.
pub fn to_wire(cred: &AuthorizationCredential) -> (w: WireCredential)
    requires
        cred@.wf(),
    ensures
        w@ == to_wire_spec(cred@),
        w@.wf(),
{
    proof {
        lemma_be_bytes_len(cred.nonce as nat, 32);
    }
    WireCredential {
        chain_id: copy_bytes(&cred.chain_id),
        code_address: copy_bytes(&cred.delegate_address),
        nonce: u64_to_be(cred.nonce, 32),
        signature: signature_bytes(&cred.r, &cred.s, cred.y_parity),
    }
}

/// The domain form of a wire credential, or why it has none.
pub fn from_wire(w: &WireCredential) -> (r: Result<AuthorizationCredential, ConversionError>)
    ensures
        r matches Ok(c) ==> from_wire_spec(w@) == Ok::<CredentialView, ConversionError>(c@),
        r matches Err(e) ==> from_wire_spec(w@) == Err::<CredentialView, ConversionError>(e),
{
    let (r, s, y_parity) = match parse_signature(w.signature.as_slice()) {
        Some(parts) => parts,
        None => return Err(ConversionError::MalformedSignature),
    };
    let nonce = match be_to_u64(&w.nonce) {
        Some(n) => n,
        None => return Err(ConversionError::NonceOverflow),
    };
    let c = AuthorizationCredential {
        chain_id: copy_bytes(&w.chain_id),
        delegate_address: copy_bytes(&w.code_address),
        nonce,
        r,
        s,
        y_parity,
    };
    assert(c@ == from_wire_spec(w@)->Ok_0);
    Ok(c)
}

/// The wire forms of a list of credentials, in order.
pub fn to_wire_list(creds: &Vec<AuthorizationCredential>) -> (ws: Vec<WireCredential>)
    requires
        forall|i: int| 0 <= i < creds@.len() ==> (#[trigger] creds@[i])@.wf(),
    ensures
        wire_views(ws@) == cred_views(creds@).map_values(|c: CredentialView| to_wire_spec(c)),
{
    let mut ws: Vec<WireCredential> = Vec::new();
    let mut i: usize = 0;
    while i < creds.len()
        invariant
            0 <= i <= creds.len(),
            forall|j: int| 0 <= j < creds@.len() ==> (#[trigger] creds@[j])@.wf(),
            wire_views(ws@) =~= cred_views(creds@.take(i as int)).map_values(
                |c: CredentialView| to_wire_spec(c),
            ),
        decreases creds.len() - i,
    {
        let w = to_wire(&creds[i]);
        let ghost before = ws@;
        ws.push(w);
        proof {
            assert(wire_views(ws@) =~= wire_views(before).push(w@));
            assert(creds@.take(i + 1) =~= creds@.take(i as int).push(creds@[i as int]));
            assert(cred_views(creds@.take(i + 1)) =~= cred_views(creds@.take(i as int)).push(
                creds@[i as int]@,
            ));
        }
        i = i + 1;
    }
    assert(creds@.take(creds@.len() as int) =~= creds@);
    ws
}

/// The domain forms of a list of wire credentials, in order; the first one
/// that does not convert fails the whole list.
pub fn from_wire_list(ws: &Vec<WireCredential>) -> (r: Result<Vec<AuthorizationCredential>, ConversionError>)
    ensures
        r matches Ok(cs) ==> from_wire_all(wire_views(ws@)) == Ok::<
            Seq<CredentialView>,
            ConversionError,
        >(cred_views(cs@)),
        r matches Err(e) ==> from_wire_all(wire_views(ws@)) == Err::<
            Seq<CredentialView>,
            ConversionError,
        >(e),
{
    let mut out: Vec<AuthorizationCredential> = Vec::new();
    let mut i: usize = 0;
    assert(wire_views(ws@.take(0)) =~= seq![]);
    assert(cred_views(out@) =~= seq![]);
    while i < ws.len()
        invariant
            0 <= i <= ws.len(),
            from_wire_all(wire_views(ws@.take(i as int))) == Ok::<
                Seq<CredentialView>,
                ConversionError,
            >(cred_views(out@)),
        decreases ws.len() - i,
    {
        proof {
            assert(wire_views(ws@.take(i + 1)).drop_last() =~= wire_views(ws@.take(i as int)));
            assert(wire_views(ws@.take(i + 1)).last() == ws@[i as int]@);
        }
        match from_wire(&ws[i]) {
            Ok(c) => {
                let ghost before = out@;
                out.push(c);
                proof {
                    assert(cred_views(out@) =~= cred_views(before).push(c@));
                }
            },
            Err(e) => {
                proof {
                    lemma_from_wire_all_err_extends(wire_views(ws@), i + 1);
                    assert(wire_views(ws@).take(i + 1) =~= wire_views(ws@.take(i + 1)));
                }
                return Err(e);
            },
        }
        i = i + 1;
    }
    assert(ws@.take(ws@.len() as int) =~= ws@);
    Ok(out)
}

proof fn lemma_from_wire_all_err_extends(ws: Seq<WireView>, k: int)
    requires
        0 <= k <= ws.len(),
        from_wire_all(ws.take(k)) is Err,
    ensures
        from_wire_all(ws) == from_wire_all(ws.take(k)),
    decreases ws.len() - k,
{
    if k < ws.len() {
        assert(ws.take(k + 1).drop_last() =~= ws.take(k));
        lemma_from_wire_all_err_extends(ws, k + 1);
    } else {
        assert(ws.take(k) =~= ws);
    }
}

proof fn lemma_pow256_mono(a: nat, b: nat)
    requires
        a <= b,
    ensures
        pow256(a) <= pow256(b),
    decreases b,
{
    if a < b {
        lemma_pow256_mono(a, (b - 1) as nat);
    }
}

/// Converting a well-formed credential to its wire form and back gives the
/// same credential.
pub proof fn lemma_wire_round_trip(c: CredentialView)
    requires
        c.wf(),
    ensures
        from_wire_spec(to_wire_spec(c)) == Ok::<CredentialView, ConversionError>(c),
{
    let w = to_wire_spec(c);
    assert(pow256(0) == 1);
    assert(pow256(1) == 0x100);
    assert(pow256(2) == 0x1_0000);
    assert(pow256(3) == 0x100_0000);
    assert(pow256(4) == 0x1_0000_0000);
    assert(pow256(5) == 0x100_0000_0000);
    assert(pow256(6) == 0x1_0000_0000_0000);
    assert(pow256(7) == 0x100_0000_0000_0000);
    assert(pow256(8) == 0x1_0000_0000_0000_0000);
    lemma_pow256_mono(8, 32);
    lemma_be_value_of_bytes(c.nonce as nat, 32);
    assert(w.signature.subrange(0, 32) =~= c.r);
    assert(w.signature.subrange(32, 64) =~= c.s);
    assert(w.signature[64] == v_byte(c.y_parity));
}

/// Converting a list of well-formed credentials to wire form and back gives
/// the same list.
pub proof fn lemma_wire_list_round_trip(cs: Seq<CredentialView>)
    requires
        forall|i: int| 0 <= i < cs.len() ==> (#[trigger] cs[i]).wf(),
    ensures
        from_wire_all(cs.map_values(|c: CredentialView| to_wire_spec(c))) == Ok::<
            Seq<CredentialView>,
            ConversionError,
        >(cs),
    decreases cs.len(),
{
    let ws = cs.map_values(|c: CredentialView| to_wire_spec(c));
    if cs.len() > 0 {
        let init = cs.drop_last();
        assert(ws.drop_last() =~= init.map_values(|c: CredentialView| to_wire_spec(c)));
        lemma_wire_list_round_trip(init);
        lemma_wire_round_trip(cs.last());
        assert(ws.last() == to_wire_spec(cs.last()));
        assert(init.push(cs.last()) =~= cs);
    } else {
        assert(cs =~= seq![]);
    }
}

} // verus!
