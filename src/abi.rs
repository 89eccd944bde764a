//! The settlement contracts' binary interface, through alloy: event
//! selectors, event payload decoding and fill call encoding.
use crate::bytes::be_bytes;
use crate::credential::{WireCredential, WireView, wire_views};
use alloy::primitives::{keccak256, Bytes as ByteString, FixedBytes as Word};
use alloy::sol_types::sol_data::{Address as SolAddress, Array, Bytes as SolBytes, FixedBytes as SolWord, Uint};
use alloy::sol_types::{SolType, SolValue};
use vstd::prelude::*;

verus! {

/// The keccak-256 digest of some bytes.
pub uninterp spec fn keccak_of(data: Seq<u8>) -> Seq<u8>;

/// The `origin_data` of each fill instruction in an order-opened event's
/// data, in order; `None` when the data does not decode.
pub uninterp spec fn open_fill_data_of(data: Seq<u8>) -> Option<Seq<Seq<u8>>>;

/// The credentials of a delegation-requested event's data, in order; `None`
/// when the data does not decode.
pub uninterp spec fn delegation_data_of(data: Seq<u8>) -> Option<Seq<WireView>>;

/// `n` as one 32-byte big-endian word.
pub open spec fn word(n: nat) -> Seq<u8> {
    be_bytes(n, 32)
}

/// `len` rounded up to whole 32-byte words.
pub open spec fn padded_len(len: nat) -> nat {
    ((len + 31) / 32) * 32
}

/// `b` followed by zero bytes up to whole words.
pub open spec fn padded(b: Seq<u8>) -> Seq<u8> {
    b + Seq::new((padded_len(b.len()) - b.len()) as nat, |i: int| 0u8)
}

/// The ABI encoding of the argument list `(bytes32 id, bytes a, bytes b)`:
/// the id and the offsets of the two byte strings, then each byte string as
/// its length and its zero-padded contents.
pub open spec fn fill_args_encoding(id: Seq<u8>, a: Seq<u8>, b: Seq<u8>) -> Seq<u8> {
    id + word(96) + word(96 + 32 + padded_len(a.len())) + word(a.len()) + padded(a) + word(b.len())
        + padded(b)
}

pub open spec fn byte_views(v: Seq<Vec<u8>>) -> Seq<Seq<u8>> {
    v.map_values(|b: Vec<u8>| b@)
}

/// Relies on alloy's `keccak256`: a 32-byte digest of the input.
#[verifier::external_body]
pub(crate) fn keccak(data: &[u8]) -> (r: Vec<u8>)
    ensures
        r@ == keccak_of(data@),
        r@.len() == 32,
{
    keccak256(data).to_vec()
}

/// Relies on alloy's `SolType::abi_decode_sequence` (unvalidated, as event
/// data is decoded) for the data tuple of the order-opened event, whose one
/// field is the resolved order; hands out each fill instruction's `originData`.
#[verifier::external_body]
pub(crate) fn decode_open_data(data: &[u8]) -> (r: Option<Vec<Vec<u8>>>)
    ensures
        r matches Some(v) ==> open_fill_data_of(data@) == Some(byte_views(v@)),
        r is None ==> open_fill_data_of(data@) is None,
{
    let decoded = <((
        SolAddress,
        Uint<256>,
        Uint<32>,
        Uint<32>,
        SolWord<32>,
        Array<(SolWord<32>, Uint<256>, SolWord<32>, Uint<256>)>,
        Array<(SolWord<32>, Uint<256>, SolWord<32>, Uint<256>)>,
        Array<(Uint<64>, SolWord<32>, SolBytes)>,
    ),)>::abi_decode_sequence(data, false);
    decoded.ok().map(|(order,)| order.7.into_iter().map(|fill| fill.2.to_vec()).collect())
}

/// Relies on alloy's `SolType::abi_decode_sequence` (unvalidated, as event
/// data is decoded) for the data tuple of the delegation-requested event,
/// whose one field holds the list of `(chainId, codeAddress, nonce,
/// signature)` authorizations.
#[verifier::external_body]
pub(crate) fn decode_delegation_data(data: &[u8]) -> (r: Option<Vec<WireCredential>>)
    ensures
        r matches Some(v) ==> delegation_data_of(data@) == Some(wire_views(v@)),
        r matches Some(v) ==> forall|i: int| 0 <= i < v@.len() ==> (#[trigger] v@[i])@.wf(),
        r is None ==> delegation_data_of(data@) is None,
{
    let decoded = <((Array<(Uint<256>, SolAddress, Uint<256>, SolBytes)>,),)>::abi_decode_sequence(data, false);
    decoded.ok().map(|((list,),)| list.into_iter().map(|(chain_id, address, nonce, signature)| WireCredential {
        chain_id: chain_id.to_be_bytes::<32>().to_vec(),
        code_address: address.to_vec(),
        nonce: nonce.to_be_bytes::<32>().to_vec(),
        signature: signature.to_vec(),
    }).collect())
}

/// Relies on alloy's `SolValue::abi_encode_params` for the tuple
/// `(bytes32, bytes, bytes)`: the standard head-and-tail layout.
#[verifier::external_body]
pub(crate) fn encode_fill_args(order_id: &[u8], origin_data: &[u8], filler_data: &[u8]) -> (r: Vec<u8>)
    requires
        order_id@.len() == 32,
    ensures
        r@ == fill_args_encoding(order_id@, origin_data@, filler_data@),
{
    let args = (Word::<32>::from_slice(order_id), ByteString::copy_from_slice(origin_data), ByteString::copy_from_slice(filler_data));
    args.abi_encode_params()
}

} // verus!
