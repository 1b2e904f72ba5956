use dharitri_chain_vm::accounts::AccountMap;
use dharitri_chain_vm::builtin::{Continuation, DCDTNftUpdateAttributes, TxInput};
use dharitri_chain_vm::cache::TxCache;
use dharitri_chain_vm::codec::top_encode_u64;
use dharitri_chain_vm::driver::{run_transaction, DriverOutcome};
use dharitri_chain_vm::ledger::{Account, AmountDelta};
use dharitri_chain_vm::result::{TxError, TxResult, TxStatus};

const TOKEN: &[u8] = b"ALC-6258d2";

fn update_attributes_input(from: &[u8], args: Vec<Vec<u8>>) -> TxInput {
    TxInput {
        from: from.to_vec(),
        to: from.to_vec(),
        func_name: "DCDTNFTUpdateAttributes".to_owned(),
        args,
        moa_value: 0,
        gas_limit: 100_000,
        gas_price: 1,
    }
}

fn base_with_token_holder() -> AccountMap {
    let mut holder = Account::new();
    holder
        .mutate_token_quantity(TOKEN, 7, AmountDelta::Increase(1))
        .unwrap();
    let mut base = AccountMap::new();
    base.set(b"address_x_______________________", holder);
    base
}

#[test]
fn balance_round_trip_restores_exactly() {
    let mut account = Account::new();
    account.mutate_balance(AmountDelta::Increase(100)).unwrap();
    assert_eq!(account.get_balance(), 100);
    account.mutate_balance(AmountDelta::Increase(25)).unwrap();
    account.mutate_balance(AmountDelta::Decrease(25)).unwrap();
    assert_eq!(account.get_balance(), 100);
}

#[test]
fn balance_underflow_is_insufficient_funds() {
    let mut account = Account::new();
    account.mutate_balance(AmountDelta::Increase(10)).unwrap();
    let err = account.mutate_balance(AmountDelta::Decrease(11)).unwrap_err();
    assert_eq!(err, TxError::InsufficientFunds);
    assert_eq!(account.get_balance(), 10);
}

#[test]
fn balance_overflow_is_execution_error() {
    let mut account = Account::new();
    account
        .mutate_balance(AmountDelta::Increase(u128::MAX))
        .unwrap();
    let err = account.mutate_balance(AmountDelta::Increase(1)).unwrap_err();
    assert_eq!(err, TxError::ExecutionError);
    assert_eq!(account.get_balance(), u128::MAX);
}

#[test]
fn first_deposit_creates_token_entry() {
    let mut account = Account::new();
    assert!(account.get_token_entry(TOKEN, 3).is_none());
    account
        .mutate_token_quantity(TOKEN, 3, AmountDelta::Increase(5))
        .unwrap();
    let entry = account.get_token_entry(TOKEN, 3).unwrap();
    assert_eq!(entry.quantity, 5);
    assert_eq!(entry.token_identifier, TOKEN.to_vec());
    assert_eq!(entry.nonce, 3);
    assert_eq!(entry.attributes, Vec::<u8>::new());
}

#[test]
fn token_underflow_is_insufficient_token_balance() {
    let mut account = Account::new();
    account
        .mutate_token_quantity(TOKEN, 3, AmountDelta::Increase(5))
        .unwrap();
    let err = account
        .mutate_token_quantity(TOKEN, 3, AmountDelta::Decrease(7))
        .unwrap_err();
    assert_eq!(err, TxError::InsufficientTokenBalance);
    assert_eq!(account.get_token_entry(TOKEN, 3).unwrap().quantity, 5);

    let err = account
        .mutate_token_quantity(b"OTHER-123456", 0, AmountDelta::Decrease(1))
        .unwrap_err();
    assert_eq!(err, TxError::InsufficientTokenBalance);
}

#[test]
fn token_quantity_overflow_is_execution_error() {
    let mut account = Account::new();
    account
        .mutate_token_quantity(TOKEN, 1, AmountDelta::Increase(u128::MAX))
        .unwrap();
    let err = account
        .mutate_token_quantity(TOKEN, 1, AmountDelta::Increase(1))
        .unwrap_err();
    assert_eq!(err, TxError::ExecutionError);
}

#[test]
fn attribute_update_preserves_quantity_creator_royalties() {
    let mut account = Account::new();
    account
        .mutate_token_quantity(TOKEN, 7, AmountDelta::Increase(4))
        .unwrap();
    let before = {
        let e = account.get_token_entry(TOKEN, 7).unwrap();
        (e.quantity, e.creator.clone(), e.royalties)
    };
    account
        .update_token_attributes(TOKEN, 7, vec![0xAA, 0xBB])
        .unwrap();
    let entry = account.get_token_entry(TOKEN, 7).unwrap();
    assert_eq!(entry.attributes, vec![0xAA, 0xBB]);
    assert_eq!(entry.quantity, before.0);
    assert_eq!(entry.creator, before.1);
    assert_eq!(entry.royalties, before.2);
}

#[test]
fn attribute_update_on_missing_entry_is_token_not_found() {
    let mut account = Account::new();
    let err = account
        .update_token_attributes(TOKEN, 7, vec![1])
        .unwrap_err();
    assert_eq!(err, TxError::TokenNotFound);
}

#[test]
fn cache_reads_fall_through_and_writes_stay_on_top() {
    let mut base = AccountMap::new();
    let mut funded = Account::new();
    funded.mutate_balance(AmountDelta::Increase(500)).unwrap();
    base.set(b"alice", funded);
    let mut cache = TxCache::new(base);

    assert_eq!(cache.get_balance(b"alice"), 500);
    assert_eq!(cache.get_balance(b"nobody"), 0);

    cache
        .mutate_balance(b"alice", AmountDelta::Decrease(200))
        .unwrap();
    assert_eq!(cache.get_balance(b"alice"), 300);

    let diff = cache.into_blockchain_update();
    assert!(!diff.is_empty());
    assert_eq!(diff.accounts.get(b"alice").unwrap().get_balance(), 300);
    assert!(diff.accounts.get(b"nobody").is_none());
}

#[test]
fn discarded_scope_leaves_parent_unchanged() {
    let mut base = AccountMap::new();
    let mut funded = Account::new();
    funded.mutate_balance(AmountDelta::Increase(500)).unwrap();
    base.set(b"alice", funded);
    let mut cache = TxCache::new(base);
    cache
        .mutate_balance(b"alice", AmountDelta::Decrease(100))
        .unwrap();

    cache.push_scope();
    cache
        .mutate_balance(b"alice", AmountDelta::Decrease(300))
        .unwrap();
    cache
        .mutate_balance(b"bob", AmountDelta::Increase(300))
        .unwrap();
    assert_eq!(cache.get_balance(b"alice"), 100);
    cache.pop_scope(false);

    assert_eq!(cache.get_balance(b"alice"), 400);
    assert_eq!(cache.get_balance(b"bob"), 0);
}

#[test]
fn committed_scope_merges_into_parent() {
    let mut cache = TxCache::new(AccountMap::new());
    cache
        .mutate_balance(b"alice", AmountDelta::Increase(10))
        .unwrap();
    cache.push_scope();
    cache
        .mutate_balance(b"alice", AmountDelta::Increase(5))
        .unwrap();
    cache
        .mutate_balance(b"bob", AmountDelta::Increase(7))
        .unwrap();
    cache.pop_scope(true);

    assert_eq!(cache.get_balance(b"alice"), 15);
    assert_eq!(cache.get_balance(b"bob"), 7);
    let diff = cache.into_blockchain_update();
    assert_eq!(diff.accounts.get(b"alice").unwrap().get_balance(), 15);
    assert_eq!(diff.accounts.get(b"bob").unwrap().get_balance(), 7);
}

#[test]
fn update_attributes_success_emits_one_log() {
    let base = base_with_token_holder();
    let cache = TxCache::new(base);
    let input = update_attributes_input(
        b"address_x_______________________",
        vec![TOKEN.to_vec(), top_encode_u64(7), vec![0xAA, 0xBB]],
    );

    match run_transaction(&input, cache) {
        DriverOutcome::Completed(res, diff) => {
            assert_eq!(res.result_status, TxStatus::Success);
            assert_eq!(res.result_logs.len(), 1);
            let log = &res.result_logs[0];
            assert_eq!(log.address, b"address_x_______________________".to_vec());
            assert_eq!(log.endpoint, "DCDTNFTUpdateAttributes".to_owned());
            assert_eq!(
                log.topics,
                vec![TOKEN.to_vec(), vec![7], Vec::<u8>::new(), vec![0xAA, 0xBB]]
            );
            assert_eq!(log.data, Vec::<u8>::new());

            let account = diff
                .accounts
                .get(b"address_x_______________________")
                .unwrap();
            let entry = account.get_token_entry(TOKEN, 7).unwrap();
            assert_eq!(entry.attributes, vec![0xAA, 0xBB]);
            assert_eq!(entry.quantity, 1);
            assert_eq!(entry.creator, Vec::<u8>::new());
        },
        DriverOutcome::ForwardToContract(_) => panic!("expected a builtin resolution"),
    }
}

#[test]
fn update_attributes_wrong_arg_count_fails_clean() {
    let base = base_with_token_holder();
    let cache = TxCache::new(base);
    let input = update_attributes_input(
        b"address_x_______________________",
        vec![TOKEN.to_vec(), top_encode_u64(7)],
    );

    match run_transaction(&input, cache) {
        DriverOutcome::Completed(res, diff) => {
            assert_eq!(
                res.result_status,
                TxStatus::Failure(TxError::InvalidArgumentCount)
            );
            assert_eq!(
                res.result_message,
                "DCDTNFTUpdateAttributes expects 3 arguments".to_owned()
            );
            assert_eq!(res.result_logs.len(), 0);
            assert!(diff.is_empty());
        },
        DriverOutcome::ForwardToContract(_) => panic!("expected a builtin resolution"),
    }
}

#[test]
fn update_attributes_missing_entry_fails_clean() {
    let base = base_with_token_holder();
    let cache = TxCache::new(base);
    let input = update_attributes_input(
        b"address_x_______________________",
        vec![TOKEN.to_vec(), top_encode_u64(9), vec![0xAA]],
    );

    match run_transaction(&input, cache) {
        DriverOutcome::Completed(res, diff) => {
            assert_eq!(res.result_status, TxStatus::Failure(TxError::TokenNotFound));
            assert_eq!(res.result_logs.len(), 0);
            assert!(diff.is_empty());
        },
        DriverOutcome::ForwardToContract(_) => panic!("expected a builtin resolution"),
    }
}

#[test]
fn update_attributes_malformed_nonce_fails_clean() {
    let mut cache = TxCache::new(base_with_token_holder());
    let input = update_attributes_input(
        b"address_x_______________________",
        vec![TOKEN.to_vec(), vec![1, 0, 0, 0, 0, 0, 0, 0, 0], vec![0xAA]],
    );
    let mut cont = Continuation::new();
    let handler = DCDTNftUpdateAttributes;
    let res = handler.execute(&input, &mut cache, &mut cont);
    assert_eq!(
        res.result_status,
        TxStatus::Failure(TxError::InvalidArgumentEncoding)
    );
    assert_eq!(res.result_logs.len(), 0);
    assert!(!cont.invoked);
}

#[test]
fn unknown_function_falls_through_to_contract_call() {
    let cache = TxCache::new(AccountMap::new());
    let mut input = update_attributes_input(b"caller", vec![]);
    input.func_name = "someContractEndpoint".to_owned();

    match run_transaction(&input, cache) {
        DriverOutcome::Completed(_, _) => panic!("expected fall-through to contract resolution"),
        DriverOutcome::ForwardToContract(cache) => {
            assert_eq!(cache.get_balance(b"caller"), 0);
        },
    }
}

#[test]
fn handler_name_matches_wire_protocol() {
    assert_eq!(DCDTNftUpdateAttributes.name(), "DCDTNFTUpdateAttributes");
}

#[test]
fn with_account_mut_captures_the_closure_result() {
    let mut cache = TxCache::new(AccountMap::new());
    cache.with_account_mut(b"carol", |mut account: Account| {
        account.mutate_balance(AmountDelta::Increase(42)).unwrap();
        account
    });
    assert_eq!(cache.get_balance(b"carol"), 42);
}

#[test]
fn nested_scopes_two_levels_deep() {
    let mut cache = TxCache::new(AccountMap::new());
    cache
        .mutate_balance(b"alice", AmountDelta::Increase(1))
        .unwrap();
    cache.push_scope();
    cache
        .mutate_balance(b"alice", AmountDelta::Increase(2))
        .unwrap();
    cache.push_scope();
    cache
        .mutate_balance(b"alice", AmountDelta::Increase(4))
        .unwrap();
    cache.pop_scope(true);
    assert_eq!(cache.get_balance(b"alice"), 7);
    cache.pop_scope(false);
    assert_eq!(cache.get_balance(b"alice"), 1);
}

#[test]
fn failure_results_carry_no_logs() {
    let r = TxResult::from_error(TxError::InsufficientFunds, "account drained".to_owned());
    assert_eq!(r.result_status, TxStatus::Failure(TxError::InsufficientFunds));
    assert_eq!(r.result_message, "account drained".to_owned());
    assert!(r.result_logs.is_empty());
    assert!(r.result_values.is_empty());

    let ok = TxResult::default();
    assert!(ok.is_success());
    assert!(ok.result_logs.is_empty());
}

#[test]
fn continuation_is_single_shot() {
    let mut cont = Continuation::new();
    assert!(!cont.invoked);
    cont.invoke();
    assert!(cont.invoked);
}
