//! Rebuilding an order from the logs of the transaction that opened it.
use crate::abi::{
    byte_views, decode_delegation_data, decode_open_data, delegation_data_of, keccak, keccak_of,
    open_fill_data_of,
};
use crate::bytes::{bytes_eq, copy_bytes};
use crate::credential::{
    AuthorizationCredential, ConversionError, CredentialView, cred_views, from_wire_all,
    from_wire_list, wire_views,
};
use vstd::prelude::*;
use vstd::string::StringSliceAdditionalSpecFns;

verus! {

/// Canonical signature of the order-opened event.
pub const OPEN_EVENT_SIGNATURE: &'static str = "Open(bytes32,(address,uint256,uint32,uint32,bytes32,(bytes32,uint256,bytes32,uint256)[],(bytes32,uint256,bytes32,uint256)[],(uint64,bytes32,bytes)[]))";

/// Canonical signature of the delegation-requested event.
pub const DELEGATION_EVENT_SIGNATURE: &'static str = "Requested7702Delegation(((uint256,address,uint256,bytes)[]))";

/// One log entry emitted by a transaction.
#[derive(Clone, Debug, PartialEq, Eq)]
pub struct LogEvent {
    /// 20-byte address of the emitting contract.
    pub address: Vec<u8>,
    /// Topics in order; the first is the event selector.
    pub topics: Vec<Vec<u8>>,
    /// The event's non-indexed data.
    pub data: Vec<u8>,
    /// 32-byte id of the transaction that emitted it, when known.
    pub transaction_hash: Option<Vec<u8>>,
}

pub struct LogView {
    pub address: Seq<u8>,
    pub topics: Seq<Seq<u8>>,
    pub data: Seq<u8>,
    pub transaction_hash: Option<Seq<u8>>,
}

impl View for LogEvent {
    type V = LogView;

    open spec fn view(&self) -> LogView {
        LogView {
            address: self.address@,
            topics: byte_views(self.topics@),
            data: self.data@,
            transaction_hash: match self.transaction_hash {
                Some(h) => Some(h@),
                None => None,
            },
        }
    }
}

pub open spec fn log_views(logs: Seq<LogEvent>) -> Seq<LogView> {
    logs.map_values(|l: LogEvent| l@)
}

/// The event selectors that reconstruction looks for.
#[derive(Clone, Debug, PartialEq, Eq)]
pub struct Selectors {
    /// First topic of an order-opened event.
    pub open: Vec<u8>,
    /// First topic of a delegation-requested event.
    pub delegation: Vec<u8>,
}

pub struct SelectorsView {
    pub open: Seq<u8>,
    pub delegation: Seq<u8>,
}

impl View for Selectors {
    type V = SelectorsView;

    open spec fn view(&self) -> SelectorsView {
        SelectorsView { open: self.open@, delegation: self.delegation@ }
    }
}

/// The selectors of the settlement contract's events.
pub open spec fn standard_selectors() -> SelectorsView {
    SelectorsView {
        open: keccak_of(OPEN_EVENT_SIGNATURE.spec_bytes()),
        delegation: keccak_of(DELEGATION_EVENT_SIGNATURE.spec_bytes()),
    }
}

impl Selectors {
    /// The selectors of the settlement contract's two events: the digests of
    /// their canonical signatures.
    pub fn standard() -> (s: Selectors)
        ensures
            s@ == standard_selectors(),
    {
        Selectors {
            open: keccak(OPEN_EVENT_SIGNATURE.as_bytes()),
            delegation: keccak(DELEGATION_EVENT_SIGNATURE.as_bytes()),
        }
    }
}

/// A fulfillable order.
#[derive(Clone, Debug, PartialEq, Eq)]
pub struct Order {
    /// 32-byte order id.
    pub id: Vec<u8>,
    /// The first fill instruction's origin data.
    pub fill_data: Vec<u8>,
    /// Credentials to attach to the fill transaction, in order.
    pub authorization_list: Vec<AuthorizationCredential>,
}

pub struct OrderView {
    pub id: Seq<u8>,
    pub fill_data: Seq<u8>,
    pub authorization_list: Seq<CredentialView>,
}

impl View for Order {
    type V = OrderView;

    open spec fn view(&self) -> OrderView {
        OrderView {
            id: self.id@,
            fill_data: self.fill_data@,
            authorization_list: cred_views(self.authorization_list@),
        }
    }
}

#[derive(Clone, Copy, Debug, PartialEq, Eq, Structural)]
pub enum ReconstructError {
    /// No log carries the order-opened selector.
    MissingOpenEvent,
    /// An event's topics or data do not decode.
    MalformedPayload,
    /// The resolved order has no fill instruction.
    NoFillInstruction,
    /// A delegation credential does not convert.
    BadAuthorization(ConversionError),
}

/// Whether the log's first topic is `selector`.
pub open spec fn has_topic0(log: LogView, selector: Seq<u8>) -> bool {
    log.topics.len() > 0 && log.topics[0] == selector
}

/// Whether `i` is the first log whose first topic is `selector`.
pub open spec fn is_first_with(logs: Seq<LogView>, selector: Seq<u8>, i: int) -> bool {
    &&& 0 <= i < logs.len()
    &&& has_topic0(logs[i], selector)
    &&& forall|j: int| 0 <= j < i ==> !has_topic0(#[trigger] logs[j], selector)
}

/// The index of the first log whose first topic is `selector`, if any.
pub open spec fn first_with(logs: Seq<LogView>, selector: Seq<u8>) -> Option<int> {
    if exists|i: int| is_first_with(logs, selector, i) {
        Some(choose|i: int| is_first_with(logs, selector, i))
    } else {
        None
    }
}

/// The authorization list that the logs request: empty without a
/// delegation-requested event.
pub open spec fn authorization_spec(logs: Seq<LogView>, selectors: SelectorsView) -> Result<
    Seq<CredentialView>,
    ReconstructError,
> {
    match first_with(logs, selectors.delegation) {
        None => Ok(seq![]),
        Some(j) => match delegation_data_of(logs[j].data) {
            None => Err(ReconstructError::MalformedPayload),
            Some(ws) => match from_wire_all(ws) {
                Err(e) => Err(ReconstructError::BadAuthorization(e)),
                Ok(cs) => Ok(cs),
            },
        },
    }
}

/// The order that a transaction's logs describe, or why they describe none.
pub open spec fn reconstruct_spec(logs: Seq<LogView>, selectors: SelectorsView) -> Result<
    OrderView,
    ReconstructError,
> {
    match first_with(logs, selectors.open) {
        None => Err(ReconstructError::MissingOpenEvent),
        Some(i) => {
            let open = logs[i];
            if open.topics.len() < 2 || open.topics[1].len() != 32 {
                Err(ReconstructError::MalformedPayload)
            } else {
                match open_fill_data_of(open.data) {
                    None => Err(ReconstructError::MalformedPayload),
                    Some(fills) => if fills.len() == 0 {
                        Err(ReconstructError::NoFillInstruction)
                    } else {
                        match authorization_spec(logs, selectors) {
                            Err(e) => Err(e),
                            Ok(auth) => Ok(
                                OrderView {
                                    id: open.topics[1],
                                    fill_data: fills[0],
                                    authorization_list: auth,
                                },
                            ),
                        }
                    },
                }
            }
        },
    }
}

proof fn lemma_first_unique(logs: Seq<LogView>, selector: Seq<u8>, i: int)
    requires
        is_first_with(logs, selector, i),
    ensures
        first_with(logs, selector) == Some(i),
{
    let k = choose|k: int| is_first_with(logs, selector, k);
    assert(is_first_with(logs, selector, k));
    if k < i {
        assert(!has_topic0(logs[k], selector));
    } else if i < k {
        assert(!has_topic0(logs[i], selector));
    }
}

/// The index of the first log whose first topic is `selector`.
fn find_first(logs: &Vec<LogEvent>, selector: &Vec<u8>) -> (r: Option<usize>)
    ensures
        r matches Some(i) ==> first_with(log_views(logs@), selector@) == Some(i as int),
        r is None ==> first_with(log_views(logs@), selector@) is None,
{
    let ghost views = log_views(logs@);
    let mut i: usize = 0;
    while i < logs.len()
        invariant
            0 <= i <= logs.len(),
            views == log_views(logs@),
            forall|j: int| 0 <= j < i ==> !has_topic0(#[trigger] views[j], selector@),
        decreases logs.len() - i,
    {
        let log = &logs[i];
        if log.topics.len() > 0 && bytes_eq(&log.topics[0], selector) {
            proof {
                assert(views[i as int] == log@);
                lemma_first_unique(views, selector@, i as int);
            }
            return Some(i);
        }
        assert(views[i as int] == log@);
        i = i + 1;
    }
    assert(!exists|k: int| is_first_with(views, selector@, k));
    None
}

/// The authorization list that the logs request.
fn authorization_list(logs: &Vec<LogEvent>, selectors: &Selectors) -> (r: Result<
    Vec<AuthorizationCredential>,
    ReconstructError,
>)
    ensures
        r matches Ok(cs) ==> authorization_spec(log_views(logs@), selectors@) == Ok::<
            Seq<CredentialView>,
            ReconstructError,
        >(cred_views(cs@)),
        r matches Err(e) ==> authorization_spec(log_views(logs@), selectors@) == Err::<
            Seq<CredentialView>,
            ReconstructError,
        >(e),
{
    match find_first(logs, &selectors.delegation) {
        None => {
            let none: Vec<AuthorizationCredential> = Vec::new();
            assert(cred_views(none@) =~= seq![]);
            Ok(none)
        },
        Some(j) => {
            let log = &logs[j];
            assert(log_views(logs@)[j as int] == log@);
            let wires = match decode_delegation_data(log.data.as_slice()) {
                Some(w) => w,
                None => return Err(ReconstructError::MalformedPayload),
            };
            match from_wire_list(&wires) {
                Ok(cs) => Ok(cs),
                Err(e) => Err(ReconstructError::BadAuthorization(e)),
            }
        },
    }
}

/// Rebuilds the order that one transaction's logs describe: the first
/// order-opened event gives the id and the first fill instruction's data,
/// the first delegation-requested event, if any, the authorization list.
pub fn reconstruct(logs: &Vec<LogEvent>, selectors: &Selectors) -> (r: Result<Order, ReconstructError>)
    ensures
        r matches Ok(o) ==> reconstruct_spec(log_views(logs@), selectors@) == Ok::<
            OrderView,
            ReconstructError,
        >(o@),
        r matches Err(e) ==> reconstruct_spec(log_views(logs@), selectors@) == Err::<
            OrderView,
            ReconstructError,
        >(e),
{
    let i = match find_first(logs, &selectors.open) {
        Some(i) => i,
        None => return Err(ReconstructError::MissingOpenEvent),
    };
    let open = &logs[i];
    assert(log_views(logs@)[i as int] == open@);
    if open.topics.len() < 2 || open.topics[1].len() != 32 {
        return Err(ReconstructError::MalformedPayload);
    }
    let fills = match decode_open_data(open.data.as_slice()) {
        Some(f) => f,
        None => return Err(ReconstructError::MalformedPayload),
    };
    if fills.len() == 0 {
        return Err(ReconstructError::NoFillInstruction);
    }
    let authorization_list = match authorization_list(logs, selectors) {
        Ok(cs) => cs,
        Err(e) => return Err(e),
    };
    Ok(Order { id: copy_bytes(&open.topics[1]), fill_data: copy_bytes(&fills[0]), authorization_list })
}

/// Logs whose first order-opened event has an order id and decodes to at
/// least one fill instruction, and that hold no delegation-requested event,
/// give an order with that id, the first instruction's data and an empty
/// authorization list.
pub proof fn lemma_without_delegation_no_authorizations(
    logs: Seq<LogView>,
    selectors: SelectorsView,
    i: int,
)
    requires
        is_first_with(logs, selectors.open, i),
        logs[i].topics.len() >= 2,
        logs[i].topics[1].len() == 32,
        open_fill_data_of(logs[i].data) matches Some(fills) && fills.len() > 0,
        forall|j: int| 0 <= j < logs.len() ==> !has_topic0(#[trigger] logs[j], selectors.delegation),
    ensures
        reconstruct_spec(logs, selectors) matches Ok(o) && o.authorization_list == Seq::<
            CredentialView,
        >::empty() && o.id == logs[i].topics[1] && o.fill_data == open_fill_data_of(
            logs[i].data,
        )->Some_0[0],
{
    lemma_first_unique(logs, selectors.open, i);
    assert(!exists|k: int| is_first_with(logs, selectors.delegation, k));
}

/// Logs without an order-opened event fail with `MissingOpenEvent`, and
/// with no other error.
pub proof fn lemma_missing_open_event(logs: Seq<LogView>, selectors: SelectorsView)
    requires
        forall|j: int| 0 <= j < logs.len() ==> !has_topic0(#[trigger] logs[j], selectors.open),
    ensures
        reconstruct_spec(logs, selectors) == Err::<OrderView, ReconstructError>(
            ReconstructError::MissingOpenEvent,
        ),
{
    assert(!exists|k: int| is_first_with(logs, selectors.open, k));
}

/// Reconstruction depends on nothing but the logs and the selectors: two
/// runs on logs that read the same give the same result.
pub proof fn lemma_reconstruct_deterministic(
    a: Seq<LogEvent>,
    b: Seq<LogEvent>,
    selectors: SelectorsView,
)
    requires
        log_views(a) == log_views(b),
    ensures
        reconstruct_spec(log_views(a), selectors) == reconstruct_spec(log_views(b), selectors),
{
}

} // verus!
