//! The builtin function registry: protocol-reserved operation names that
//! bypass contract bytecode and are handled natively by the engine. Every
//! handler validates argument count and decodes all required fields before
//! any ledger mutation; on validation failure it returns a failure result
//! with no logs and mutates nothing.

use vstd::prelude::*;
use crate::cache::TxCache;
use crate::codec::{be_value, min_be, top_decode_u64, top_encode_u64};
use crate::ledger::{AccountV, spec_apply_attr_update, slice_to_vec};
use crate::result::{TxError, TxLog, TxResult, TxStatus};

verus! {

/// One transaction's input, immutable once execution starts.
pub struct TxInput {
    pub from: Vec<u8>,
    pub to: Vec<u8>,
    pub func_name: String,
    pub args: Vec<Vec<u8>>,
    pub moa_value: u128,
    pub gas_limit: u64,
    pub gas_price: u64,
}

/// A single-shot deferred action standing for "proceed with the normal call
/// pipeline after this builtin's pre-processing". A handler that fully
/// resolves the call never invokes it; invoking it twice is a programming
/// error the engine refuses.
pub struct Continuation {
    pub invoked: bool,
}

impl Continuation {
    /// A fresh, not yet invoked continuation.
    pub fn new() -> (r: Self)
        ensures
            !r.invoked,
    {
        Continuation { invoked: false }
    }

    /// Consumes the single shot; a second invocation is refused.
    pub fn invoke(&mut self)
        requires
            !old(self).invoked,
        ensures
            final(self).invoked,
    {
        self.invoked = true;
    }
}

/// The wire-protocol name of the attribute-update builtin.
pub open spec fn dcdt_nft_update_attributes_name() -> Seq<char> {
    "DCDTNFTUpdateAttributes"@
}

/// What the attribute-update builtin decides from its arguments and the
/// sender's account: the mutated account and the decoded nonce, or the
/// failure that refuses the call. Exactly 3 arguments are required: token
/// identifier, minimally big-endian encoded nonce, new attribute bytes.
pub open spec fn spec_update_attributes(args: Seq<Seq<u8>>, a: AccountV) -> Result<
    (AccountV, u64),
    TxError,
> {
    if args.len() != 3 {
        Err(TxError::InvalidArgumentCount)
    } else if args[1].len() > 8 {
        Err(TxError::InvalidArgumentEncoding)
    } else {
        let nonce = be_value(args[1]) as u64;
        match spec_apply_attr_update(a, args[0], nonce, args[2]) {
            Ok(a2) => Ok((a2, nonce)),
            Err(e) => Err(e),
        }
    }
}

/// The nonce-addressed metadata-rewrite builtin: replaces the attribute
/// payload of one of the sender's own token entries.
pub struct DCDTNftUpdateAttributes;

impl DCDTNftUpdateAttributes {
    /// The builtin's wire-protocol name; dispatch matches it exactly.
    pub fn name(&self) -> (r: &'static str)
        ensures
            r@ == dcdt_nft_update_attributes_name(),
    {
        "DCDTNFTUpdateAttributes"
    }

    /// Executes the builtin against the sender's account. Arguments are
    /// validated and decoded before any ledger mutation; on any failure the
    /// cache is untouched and the result carries no logs. On success exactly
    /// one log is emitted: topics are the token identifier, the minimally
    /// re-encoded nonce, an empty byte array standing for "value = 0", and
    /// the new attribute bytes. The call is fully resolved here, so the
    /// continuation is never invoked.
    pub fn execute(
        &self,
        tx_input: &TxInput,
        tx_cache: &mut TxCache,
        cont: &mut Continuation,
    ) -> (r: TxResult)
        requires
            old(tx_cache).wf(),
        ensures
            final(tx_cache).wf(),
            final(tx_cache).base == old(tx_cache).base,
            final(tx_cache).layers@.len() == old(tx_cache).layers@.len(),
            final(tx_cache).layers_view().drop_last() == old(tx_cache).layers_view().drop_last(),
            *final(cont) == *old(cont),
            match spec_update_attributes(
                tx_input.args.deep_view(),
                old(tx_cache).account_state(tx_input.from@),
            ) {
                Ok((a2, nonce)) => {
                    &&& r.result_status == TxStatus::Success
                    &&& r.result_message@ == Seq::<char>::empty()
                    &&& r.result_values@.len() == 0
                    &&& r.gas_remaining == 0
                    &&& r.result_logs@.len() == 1
                    &&& r.result_logs@[0]@.address == tx_input.from@
                    &&& r.result_logs@[0]@.endpoint == dcdt_nft_update_attributes_name()
                    &&& r.result_logs@[0]@.topics == seq![
                        tx_input.args@[0]@,
                        min_be(nonce as nat),
                        Seq::<u8>::empty(),
                        tx_input.args@[2]@,
                    ]
                    &&& r.result_logs@[0]@.data == Seq::<u8>::empty()
                    &&& final(tx_cache).account_state(tx_input.from@) == a2
                    &&& final(tx_cache).layers_view() == old(tx_cache).layers_view().update(
                        old(tx_cache).layers@.len() - 1,
                        old(tx_cache).layers_view().last().insert(tx_input.from@, a2),
                    )
                    &&& forall|a3: Seq<u8>|
                        a3 != tx_input.from@ ==> final(tx_cache).lookup(a3) == old(
                            tx_cache,
                        ).lookup(a3)
                },
                Err(e) => {
                    &&& r.result_status == TxStatus::Failure(e)
                    &&& r.result_logs@.len() == 0
                    &&& r.result_values@.len() == 0
                    &&& *final(tx_cache) == *old(tx_cache)
                    &&& (e == TxError::InvalidArgumentCount ==> r.result_message@
                        == "DCDTNFTUpdateAttributes expects 3 arguments"@)
                    &&& (e == TxError::InvalidArgumentEncoding ==> r.result_message@
                        == "invalid nonce encoding"@)
                    &&& (e == TxError::TokenNotFound ==> r.result_message@ == "token not found"@)
                },
            },
    {
        proof {
            if tx_input.args@.len() == 3 {
                crate::bytes::lemma_bytes_list_deep_view_index(&tx_input.args, 0);
                crate::bytes::lemma_bytes_list_deep_view_index(&tx_input.args, 1);
                crate::bytes::lemma_bytes_list_deep_view_index(&tx_input.args, 2);
            }
        }
        if tx_input.args.len() != 3 {
            return TxResult::from_error(
                TxError::InvalidArgumentCount,
                "DCDTNFTUpdateAttributes expects 3 arguments".to_owned(),
            );
        }
        let token_identifier = &tx_input.args[0];
        let nonce = match top_decode_u64(tx_input.args[1].as_slice()) {
            Some(n) => n,
            None => {
                return TxResult::from_error(
                    TxError::InvalidArgumentEncoding,
                    "invalid nonce encoding".to_owned(),
                );
            },
        };
        let attributes = slice_to_vec(tx_input.args[2].as_slice());
        match tx_cache.update_token_attributes(
            tx_input.from.as_slice(),
            token_identifier.as_slice(),
            nonce,
            attributes,
        ) {
            Ok(_) => {
                let mut topics: Vec<Vec<u8>> = Vec::new();
                topics.push(slice_to_vec(token_identifier.as_slice()));
                topics.push(top_encode_u64(nonce));
                topics.push(Vec::new());
                topics.push(slice_to_vec(tx_input.args[2].as_slice()));
                let log = TxLog {
                    address: slice_to_vec(tx_input.from.as_slice()),
                    endpoint: "DCDTNFTUpdateAttributes".to_owned(),
                    topics,
                    data: Vec::new(),
                };
                proof {
                    crate::bytes::lemma_bytes_list_deep_view_index(&log.topics, 0);
                    crate::bytes::lemma_bytes_list_deep_view_index(&log.topics, 1);
                    crate::bytes::lemma_bytes_list_deep_view_index(&log.topics, 2);
                    crate::bytes::lemma_bytes_list_deep_view_index(&log.topics, 3);
                    assert(log@.topics =~= seq![
                        tx_input.args@[0]@,
                        min_be(nonce as nat),
                        Seq::<u8>::empty(),
                        tx_input.args@[2]@,
                    ]);
                }
                let mut result_logs: Vec<TxLog> = Vec::new();
                result_logs.push(log);
                TxResult {
                    result_status: TxStatus::Success,
                    result_message: String::new(),
                    result_values: Vec::new(),
                    result_logs,
                    gas_remaining: 0,
                }
            },
            Err(e) => TxResult::from_error(e, "token not found".to_owned()),
        }
    }
}

} // verus!
