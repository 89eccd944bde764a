//! The filler service's decisions: one order at a time, from an observed log
//! to a submitted fill, skipping whatever fails.
use crate::bytes::{bytes_eq, copy_bytes};
use crate::credential::cred_views;
use crate::fill::{FillError, FillTransaction, SubmitOutcome, fill_calldata, fill_transaction};
use crate::order::{
    LogEvent, ReconstructError, Selectors, log_views, reconstruct, reconstruct_spec,
    standard_selectors,
};
use vstd::prelude::*;

verus! {

/// What the service is waiting for.
#[derive(Clone, Copy, Debug, PartialEq, Eq, Structural)]
pub enum Phase {
    /// The next log from the origin settlement contract.
    Listening,
    /// The receipt of the transaction that emitted the last log.
    AwaitingReceipt,
    /// The destination client's answer to a fill.
    AwaitingSubmission,
}

/// What the outside world reports to the service.
#[derive(Clone, Debug, PartialEq, Eq)]
pub enum Event {
    /// The subscription yielded a log, with its transaction's id if known.
    LogObserved { transaction_hash: Option<Vec<u8>> },
    /// The receipt lookup returned the transaction's logs, or nothing.
    ReceiptFetched { logs: Option<Vec<LogEvent>> },
    /// The destination client answered a submission.
    SubmissionSettled { outcome: SubmitOutcome },
}

/// Why an observed transaction produced no fill.
#[derive(Clone, Copy, Debug, PartialEq, Eq, Structural)]
pub enum SkipReason {
    MissingTransactionHash,
    ReceiptUnavailable,
    Reconstruct(ReconstructError),
    Fill(FillError),
}

/// What the service asks the outside world to do next.
#[derive(Clone, Debug, PartialEq, Eq)]
pub enum Action {
    /// Look up the receipt of this transaction.
    FetchReceipt { transaction_hash: Vec<u8> },
    /// Sign and submit this transaction on the destination chain.
    Submit { transaction: FillTransaction },
    /// Report the fill and wait for the next log.
    Filled { transaction_id: Vec<u8> },
    /// Report why the transaction was skipped and wait for the next log.
    Skip { reason: SkipReason },
    /// The event does not answer what the service waits for, or is a further
    /// log of the transaction handled last; keep waiting.
    Ignored,
}

/// A filler between one origin and one destination settlement contract.
#[derive(Clone, Debug, PartialEq, Eq)]
pub struct Filler {
    /// 20-byte address of the origin settlement contract.
    pub origin: Vec<u8>,
    /// 20-byte address of the destination settlement contract.
    pub destination: Vec<u8>,
    pub selectors: Selectors,
    pub phase: Phase,
    /// 32-byte id of the transaction handled last. Its logs arrive one after
    /// another, and the first of them is enough to handle it.
    pub last_transaction: Option<Vec<u8>>,
}

impl Filler {
    pub open spec fn wf(&self) -> bool {
        self.origin@.len() == 20 && self.destination@.len() == 20
    }

    /// The id of the transaction handled last, if any.
    pub open spec fn last_handled(&self) -> Option<Seq<u8>> {
        match self.last_transaction {
            Some(h) => Some(h@),
            None => None,
        }
    }

    /// A filler that listens for the next log.
    pub fn new(origin: &Vec<u8>, destination: &Vec<u8>) -> (f: Filler)
        requires
            origin@.len() == 20,
            destination@.len() == 20,
        ensures
            f.wf(),
            f.origin@ == origin@,
            f.destination@ == destination@,
            f.selectors@ == standard_selectors(),
            f.phase == Phase::Listening,
            f.last_handled() is None,
    {
        Filler {
            origin: copy_bytes(origin),
            destination: copy_bytes(destination),
            selectors: Selectors::standard(),
            phase: Phase::Listening,
            last_transaction: None,
        }
    }

    /// Takes one event and says what to do next. A log of a new transaction
    /// leads to that transaction's receipt, the receipt to a fill of the
    /// order it opens, and the fill's answer back to listening; every failure
    /// skips the transaction and returns to listening. Further logs of the
    /// transaction handled last are ignored, so each transaction is handled
    /// once.
    pub fn step(&mut self, event: Event) -> (action: Action)
        requires
            old(self).wf(),
        ensures
            final(self).wf(),
            final(self).origin == old(self).origin,
            final(self).destination == old(self).destination,
            final(self).selectors == old(self).selectors,
            final(self).last_handled() != old(self).last_handled() ==> {
                &&& old(self).phase == Phase::Listening
                &&& event matches Event::LogObserved { transaction_hash: Some(h) }
                    && final(self).last_handled() == Some(h@)
            },
            old(self).phase == Phase::Listening ==> match event {
                Event::LogObserved { transaction_hash: Some(h) } => if old(self).last_handled()
                    == Some(h@) {
                    &&& final(self).phase == Phase::Listening
                    &&& final(self).last_handled() == old(self).last_handled()
                    &&& action is Ignored
                } else {
                    &&& final(self).phase == Phase::AwaitingReceipt
                    &&& final(self).last_handled() == Some(h@)
                    &&& action matches Action::FetchReceipt { transaction_hash: t } && t@ == h@
                },
                Event::LogObserved { transaction_hash: None } => {
                    &&& final(self).phase == Phase::Listening
                    &&& action == (Action::Skip { reason: SkipReason::MissingTransactionHash })
                },
                _ => final(self).phase == Phase::Listening && action is Ignored,
            },
            old(self).phase == Phase::AwaitingReceipt ==> match event {
                Event::ReceiptFetched { logs: None } => {
                    &&& final(self).phase == Phase::Listening
                    &&& action == (Action::Skip { reason: SkipReason::ReceiptUnavailable })
                },
                Event::ReceiptFetched { logs: Some(ls) } => match reconstruct_spec(
                    log_views(ls@),
                    old(self).selectors@,
                ) {
                    Err(e) => {
                        &&& final(self).phase == Phase::Listening
                        &&& action == (Action::Skip { reason: SkipReason::Reconstruct(e) })
                    },
                    Ok(o) => {
                        &&& final(self).phase == Phase::AwaitingSubmission
                        &&& action matches Action::Submit { transaction: tx }
                        &&& tx.to@ == old(self).destination@
                        &&& tx.input@ == fill_calldata(o.id, o.fill_data)
                        &&& cred_views(tx.authorization_list@) == o.authorization_list
                    },
                },
                _ => final(self).phase == Phase::AwaitingReceipt && action is Ignored,
            },
            old(self).phase == Phase::AwaitingSubmission ==> match event {
                Event::SubmissionSettled { outcome: SubmitOutcome::Accepted(id) } => {
                    &&& final(self).phase == Phase::Listening
                    &&& action matches Action::Filled { transaction_id: t } && t@ == id@
                },
                Event::SubmissionSettled { outcome: SubmitOutcome::Rejected } => {
                    &&& final(self).phase == Phase::Listening
                    &&& action == (Action::Skip {
                        reason: SkipReason::Fill(FillError::SubmissionRejected),
                    })
                },
                Event::SubmissionSettled { outcome: SubmitOutcome::TransportFailed } => {
                    &&& final(self).phase == Phase::Listening
                    &&& action == (Action::Skip { reason: SkipReason::Fill(FillError::TransportError) })
                },
                _ => final(self).phase == Phase::AwaitingSubmission && action is Ignored,
            },
    {
        match (self.phase, event) {
            (Phase::Listening, Event::LogObserved { transaction_hash }) => match transaction_hash {
                Some(h) => {
                    let seen = match &self.last_transaction {
                        Some(last) => bytes_eq(last, &h),
                        None => false,
                    };
                    if seen {
                        Action::Ignored
                    } else {
                        self.last_transaction = Some(copy_bytes(&h));
                        self.phase = Phase::AwaitingReceipt;
                        Action::FetchReceipt { transaction_hash: h }
                    }
                },
                None => Action::Skip { reason: SkipReason::MissingTransactionHash },
            },
            (Phase::AwaitingReceipt, Event::ReceiptFetched { logs }) => {
                self.phase = Phase::Listening;
                match logs {
                    None => Action::Skip { reason: SkipReason::ReceiptUnavailable },
                    Some(ls) => match reconstruct(&ls, &self.selectors) {
                        Err(e) => Action::Skip { reason: SkipReason::Reconstruct(e) },
                        Ok(order) => {
                            let transaction = fill_transaction(&self.destination, order);
                            self.phase = Phase::AwaitingSubmission;
                            Action::Submit { transaction }
                        },
                    },
                }
            },
            (Phase::AwaitingSubmission, Event::SubmissionSettled { outcome }) => {
                self.phase = Phase::Listening;
                match outcome.into_result() {
                    Ok(id) => Action::Filled { transaction_id: id },
                    Err(e) => Action::Skip { reason: SkipReason::Fill(e) },
                }
            },
            (_, _) => Action::Ignored,
        }
    }
}

} // verus!
