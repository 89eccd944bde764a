//! The destination-chain fill: the call that fulfils an order and how the
//! chain client's answer to it is read.
use crate::abi::{encode_fill_args, fill_args_encoding, keccak, keccak_of};
use crate::credential::AuthorizationCredential;
use crate::order::Order;
use vstd::prelude::*;
use vstd::string::StringSliceAdditionalSpecFns;

verus! {

/// Canonical signature of the destination settlement's fill entry point.
pub const FILL_FUNCTION_SIGNATURE: &'static str = "fill(bytes32,bytes,bytes)";

/// The first four bytes of the digest of the entry point's signature.
pub open spec fn fill_selector() -> Seq<u8> {
    keccak_of(FILL_FUNCTION_SIGNATURE.spec_bytes()).take(4)
}

/// Call data for `fill(order_id, origin_data, filler_data)` with empty
/// filler data.
pub open spec fn fill_calldata(order_id: Seq<u8>, origin_data: Seq<u8>) -> Seq<u8> {
    fill_selector() + fill_args_encoding(order_id, origin_data, seq![])
}

/// A destination-chain transaction to submit.
#[derive(Clone, Debug, PartialEq, Eq)]
pub struct FillTransaction {
    /// 20-byte address of the destination settlement contract.
    pub to: Vec<u8>,
    /// Call data.
    pub input: Vec<u8>,
    /// Credentials attached as the transaction's delegation list.
    pub authorization_list: Vec<AuthorizationCredential>,
}

#[derive(Clone, Copy, Debug, PartialEq, Eq, Structural)]
pub enum FillError {
    /// The chain client refused the transaction.
    SubmissionRejected,
    /// The chain client could not be reached.
    TransportError,
}

/// What the destination chain client answered to a submission.
#[derive(Clone, Debug, PartialEq, Eq)]
pub enum SubmitOutcome {
    /// Accepted, with the 32-byte transaction id.
    Accepted(Vec<u8>),
    /// Refused by the client (nonce conflict, balance, ...).
    Rejected,
    /// Network or RPC failure.
    TransportFailed,
}

impl SubmitOutcome {
    /// The fill's result for this answer.
    pub fn into_result(self) -> (r: Result<Vec<u8>, FillError>)
        ensures
            self matches SubmitOutcome::Accepted(id) ==> r matches Ok(t) && t@ == id@,
            self is Rejected ==> r == Err::<Vec<u8>, FillError>(FillError::SubmissionRejected),
            self is TransportFailed ==> r == Err::<Vec<u8>, FillError>(FillError::TransportError),
    {
        match self {
            SubmitOutcome::Accepted(id) => Ok(id),
            SubmitOutcome::Rejected => Err(FillError::SubmissionRejected),
            SubmitOutcome::TransportFailed => Err(FillError::TransportError),
        }
    }
}

/// The transaction that fills `order` at the settlement contract
/// `destination`: `fill(order.id, order.fill_data, "")` with the order's
/// authorization list attached.
pub fn fill_transaction(destination: &Vec<u8>, order: Order) -> (tx: FillTransaction)
    requires
        order.id@.len() == 32,
    ensures
        tx.to@ == destination@,
        tx.input@ == fill_calldata(order.id@, order.fill_data@),
        tx.authorization_list@ == order.authorization_list@,
{
    let digest = keccak(FILL_FUNCTION_SIGNATURE.as_bytes());
    let mut input: Vec<u8> = Vec::new();
    let mut i: usize = 0;
    while i < 4
        invariant
            0 <= i <= 4,
            digest@.len() == 32,
            input@ =~= digest@.take(i as int),
        decreases 4 - i,
    {
        input.push(digest[i]);
        i = i + 1;
    }
    let filler_data: Vec<u8> = Vec::new();
    let mut args = encode_fill_args(order.id.as_slice(), order.fill_data.as_slice(), filler_data.as_slice());
    assert(filler_data@ =~= seq![]);
    input.append(&mut args);
    FillTransaction {
        to: crate::bytes::copy_bytes(destination),
        input,
        authorization_list: order.authorization_list,
    }
}

} // verus!
