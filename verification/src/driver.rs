//! The execution driver: resolves a transaction's target function, runs a
//! builtin inside a cache scope, and commits or discards the produced diff.
//! A transaction is atomic from the caller's point of view: on success the
//! diff holds exactly the accounts it wrote, on failure the diff is empty.

use vstd::prelude::*;
use crate::builtin::{
    Continuation, DCDTNftUpdateAttributes, TxInput, dcdt_nft_update_attributes_name,
    spec_update_attributes,
};
use crate::cache::{BlockchainUpdate, TxCache};
use crate::ledger::AccountV;
use crate::result::{TxResult, TxStatus};

verus! {

/// Identifies a handler in the closed builtin registry.
#[derive(Clone, Copy, PartialEq, Eq, Structural, Debug)]
pub enum BuiltinId {
    NftUpdateAttributes,
}

/// Exact, case-sensitive lookup in the reserved function-name namespace.
/// A name not in the registry is no failure: the call falls through to
/// ordinary contract-call resolution.
pub fn lookup_builtin(func_name: &String) -> (r: Option<BuiltinId>)
    ensures
        func_name@ == dcdt_nft_update_attributes_name() ==> r == Some(
            BuiltinId::NftUpdateAttributes,
        ),
        func_name@ != dcdt_nft_update_attributes_name() ==> r is None,
{
    let update_attributes_name: String = "DCDTNFTUpdateAttributes".to_owned();
    if *func_name == update_attributes_name {
        Some(BuiltinId::NftUpdateAttributes)
    } else {
        None
    }
}

/// How the driver concluded one transaction.
pub enum DriverOutcome {
    /// A builtin fully resolved the call: the result and the diff are
    /// final. On failure the diff is empty.
    Completed(TxResult, BlockchainUpdate),
    /// The function name is no builtin: ordinary contract-call resolution
    /// takes over, with the cache handed back untouched.
    ForwardToContract(TxCache),
}

/// Drives one transaction over a fresh top-level cache: resolve the
/// function name, run the handler inside a nested scope, then pop the scope
/// — committing on success, discarding on failure.
pub fn run_transaction(tx_input: &TxInput, tx_cache: TxCache) -> (r: DriverOutcome)
    requires
        tx_cache.wf(),
        tx_cache.layers@.len() == 1,
    ensures
        tx_input.func_name@ != dcdt_nft_update_attributes_name() ==> (r matches
            DriverOutcome::ForwardToContract(c) && c == tx_cache),
        tx_input.func_name@ == dcdt_nft_update_attributes_name() ==> (r matches
            DriverOutcome::Completed(res, diff) && {
            match spec_update_attributes(
                tx_input.args.deep_view(),
                tx_cache.account_state(tx_input.from@),
            ) {
                Ok((a2, nonce)) => {
                    &&& res.result_status == TxStatus::Success
                    &&& res.result_values@.len() == 0
                    &&& res.result_logs@.len() == 1
                    &&& res.result_logs@[0]@.address == tx_input.from@
                    &&& res.result_logs@[0]@.endpoint == dcdt_nft_update_attributes_name()
                    &&& res.result_logs@[0]@.topics == seq![
                        tx_input.args@[0]@,
                        crate::codec::min_be(nonce as nat),
                        Seq::<u8>::empty(),
                        tx_input.args@[2]@,
                    ]
                    &&& res.result_logs@[0]@.data == Seq::<u8>::empty()
                    &&& diff.wf()
                    &&& diff@ == tx_cache.layers_view()[0].insert(tx_input.from@, a2)
                },
                Err(e) => {
                    &&& res.result_status == TxStatus::Failure(e)
                    &&& res.result_values@.len() == 0
                    &&& res.result_logs@.len() == 0
                    &&& diff.wf()
                    &&& diff@ == Map::<Seq<u8>, AccountV>::empty()
                    &&& diff.accounts.items@.len() == 0
                    &&& (e == crate::result::TxError::InvalidArgumentCount ==> res.result_message@
                        == "DCDTNFTUpdateAttributes expects 3 arguments"@)
                    &&& (e == crate::result::TxError::InvalidArgumentEncoding
                        ==> res.result_message@ == "invalid nonce encoding"@)
                    &&& (e == crate::result::TxError::TokenNotFound ==> res.result_message@
                        == "token not found"@)
                },
            }
        }),
{
    let mut cache = tx_cache;
    match lookup_builtin(&tx_input.func_name) {
        Some(BuiltinId::NftUpdateAttributes) => {
            let ghost lv0 = cache.layers_view();
            cache.push_scope();
            let mut cont = Continuation::new();
            let handler = DCDTNftUpdateAttributes;
            let res = handler.execute(tx_input, &mut cache, &mut cont);
            let success = res.is_success();
            proof {
                assert(cache.layers_view().drop_last() =~= lv0);
            }
            cache.pop_scope(success);
            if success {
                proof {
                    assert(cache.layers_view().len() == 1);
                    let a2 = spec_update_attributes(
                        tx_input.args.deep_view(),
                        tx_cache.account_state(tx_input.from@),
                    ).unwrap().0;
                    assert(lv0[0].union_prefer_right(
                        Map::<Seq<u8>, AccountV>::empty().insert(tx_input.from@, a2),
                    ) =~= lv0[0].insert(tx_input.from@, a2));
                }
                let diff = cache.into_blockchain_update();
                DriverOutcome::Completed(res, diff)
            } else {
                DriverOutcome::Completed(res, BlockchainUpdate::empty())
            }
        },
        None => DriverOutcome::ForwardToContract(cache),
    }
}

} // verus!
