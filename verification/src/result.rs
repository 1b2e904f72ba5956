//! The result and log model: the structured outcome every handler and the
//! execution driver emit, and the log records whose order and byte-exact
//! shape are part of the protocol's observable behaviour.

use vstd::prelude::*;

verus! {

/// The tagged failure reasons a transaction can end with. `ExecutionError`
/// is the catch-all for conditions not otherwise classified; its descriptive
/// message lives in [`TxResult::result_message`].
#[derive(Clone, Copy, PartialEq, Eq, Structural, Debug)]
pub enum TxError {
    InvalidArgumentCount,
    InvalidArgumentEncoding,
    TokenNotFound,
    InsufficientFunds,
    InsufficientTokenBalance,
    ExecutionError,
}

/// Success, or a tagged failure reason.
#[derive(Clone, Copy, PartialEq, Eq, Structural, Debug)]
pub enum TxStatus {
    Success,
    Failure(TxError),
}

impl TxStatus {
    /// Whether this status denotes success.
    pub fn is_success(&self) -> (r: bool)
        ensures
            r == (self is Success),
    {
        match self {
            TxStatus::Success => true,
            TxStatus::Failure(_) => false,
        }
    }
}

/// The mathematical shape of one log record.
pub ghost struct TxLogV {
    pub address: Seq<u8>,
    pub endpoint: Seq<char>,
    pub topics: Seq<Seq<u8>>,
    pub data: Seq<u8>,
}

/// One emitted log record: emitting address, event name, ordered topic byte
/// arrays, and a free-form data payload. Append-only; emission order is
/// externally observable.
pub struct TxLog {
    pub address: Vec<u8>,
    pub endpoint: String,
    pub topics: Vec<Vec<u8>>,
    pub data: Vec<u8>,
}

impl View for TxLog {
    type V = TxLogV;

    open spec fn view(&self) -> TxLogV {
        TxLogV {
            address: self.address@,
            endpoint: self.endpoint@,
            topics: self.topics.deep_view(),
            data: self.data@,
        }
    }
}

/// The outcome of one transaction: status, emitted logs, return values and
/// remaining gas. Constructed once and never mutated afterward.
pub struct TxResult {
    pub result_status: TxStatus,
    pub result_message: String,
    pub result_values: Vec<Vec<u8>>,
    pub result_logs: Vec<TxLog>,
    pub gas_remaining: u64,
}

impl TxResult {
    /// Whether the transaction succeeded.
    pub fn is_success(&self) -> (r: bool)
        ensures
            r == (self.result_status is Success),
    {
        self.result_status.is_success()
    }

    /// A failure result with a tagged reason and a descriptive message:
    /// no logs, no return values.
    pub fn from_error(error: TxError, message: String) -> (r: TxResult)
        ensures
            r.result_status == TxStatus::Failure(error),
            r.result_message == message,
            r.result_values@.len() == 0,
            r.result_logs@.len() == 0,
            r.gas_remaining == 0,
    {
        TxResult {
            result_status: TxStatus::Failure(error),
            result_message: message,
            result_values: Vec::new(),
            result_logs: Vec::new(),
            gas_remaining: 0,
        }
    }
}

impl core::default::Default for TxResult {
    /// A success result with no logs and no return data.
    fn default() -> (r: Self)
        ensures
            r.result_status is Success,
            r.result_message@ == Seq::<char>::empty(),
            r.result_values@.len() == 0,
            r.result_logs@.len() == 0,
            r.gas_remaining == 0,
    {
        TxResult {
            result_status: TxStatus::Success,
            result_message: String::new(),
            result_values: Vec::new(),
            result_logs: Vec::new(),
            gas_remaining: 0,
        }
    }
}

} // verus!
