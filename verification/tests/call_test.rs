use dharitri_chain_vm::call::{
    ContractCallNoPayment, ContractCallWithMoa, FunctionCall, MoaOrMultiDcdtPayment,
    MultiDcdtPayment,
};
use dharitri_chain_vm::payment::{DcdtTokenPayment, MoaOrDcdtTokenPayment};
use dharitri_chain_vm::token::{MoaOrDcdtTokenIdentifier, TokenIdentifier};
use dharitri_chain_vm::transfer::{TxDcdt, TxTransfer};

fn token_id(s: &str) -> TokenIdentifier {
    TokenIdentifier::from_bytes(s.as_bytes().to_vec())
}

fn sample_call() -> ContractCallWithMoa {
    let fc = FunctionCall::new(b"doStuff".to_vec()).argument(vec![1, 2]);
    ContractCallWithMoa {
        basic: ContractCallNoPayment {
            to: b"receiver".to_vec(),
            function_call: fc,
            explicit_gas_limit: 5000,
        },
        moa_payment: 7,
    }
}

const OWN: &[u8] = b"own_contract_address";

#[test]
fn zero_payments_leave_the_call_alone() {
    let call = sample_call();
    let converted = call.convert_to_dcdt_transfer_call(&OWN.to_vec(), &Vec::new());
    assert_eq!(converted.basic.to, b"receiver".to_vec());
    assert_eq!(converted.basic.function_call.function_name, b"doStuff".to_vec());
    assert_eq!(converted.basic.function_call.arg_buffer, vec![vec![1, 2]]);
    assert_eq!(converted.moa_payment, 7);
}

#[test]
fn one_fungible_payment_becomes_dcdt_transfer() {
    let call = sample_call();
    let payments = vec![DcdtTokenPayment::new(token_id("PAY-123456"), 0, 1000)];
    let converted = call.convert_to_dcdt_transfer_call(&OWN.to_vec(), &payments);
    assert_eq!(converted.basic.to, b"receiver".to_vec());
    assert_eq!(converted.moa_payment, 0);
    assert_eq!(
        converted.basic.function_call.function_name,
        b"DCDTTransfer".to_vec()
    );
    assert_eq!(
        converted.basic.function_call.arg_buffer,
        vec![
            b"PAY-123456".to_vec(),
            vec![3, 232],
            b"doStuff".to_vec(),
            vec![1, 2],
        ]
    );
}

#[test]
fn one_nft_payment_becomes_self_addressed_nft_transfer() {
    let call = sample_call();
    let payments = vec![DcdtTokenPayment::new(token_id("PAY-123456"), 7, 2)];
    let converted = call.convert_to_dcdt_transfer_call(&OWN.to_vec(), &payments);
    assert_eq!(converted.basic.to, OWN.to_vec());
    assert_eq!(converted.moa_payment, 0);
    assert_eq!(
        converted.basic.function_call.function_name,
        b"DCDTNFTTransfer".to_vec()
    );
    assert_eq!(
        converted.basic.function_call.arg_buffer,
        vec![
            b"PAY-123456".to_vec(),
            vec![7],
            vec![2],
            b"receiver".to_vec(),
            b"doStuff".to_vec(),
            vec![1, 2],
        ]
    );
}

#[test]
fn two_payments_become_multi_transfer() {
    let call = sample_call();
    let payments = vec![
        DcdtTokenPayment::new(token_id("PAY-123456"), 0, 1000),
        DcdtTokenPayment::new(token_id("NFT-654321"), 7, 1),
    ];
    let converted = call.convert_to_dcdt_transfer_call(&OWN.to_vec(), &payments);
    assert_eq!(converted.basic.to, OWN.to_vec());
    assert_eq!(converted.moa_payment, 0);
    assert_eq!(
        converted.basic.function_call.function_name,
        b"MultiDCDTNFTTransfer".to_vec()
    );
    assert_eq!(
        converted.basic.function_call.arg_buffer,
        vec![
            b"receiver".to_vec(),
            vec![2],
            b"PAY-123456".to_vec(),
            Vec::<u8>::new(),
            vec![3, 232],
            b"NFT-654321".to_vec(),
            vec![7],
            vec![1],
            b"doStuff".to_vec(),
            vec![1, 2],
        ]
    );
}

#[test]
fn normalizing_matches_the_conversion_paths() {
    let fc = FunctionCall::new(b"doStuff".to_vec()).argument(vec![1, 2]);
    let none = MultiDcdtPayment::from_payments(Vec::new());
    let normalized = none.with_normalized(&OWN.to_vec(), &b"receiver".to_vec(), fc);
    assert_eq!(normalized.to, b"receiver".to_vec());
    assert_eq!(normalized.moa_value, 0);
    assert_eq!(normalized.function_call.function_name, b"doStuff".to_vec());
    assert_eq!(normalized.function_call.arg_buffer, vec![vec![1, 2]]);

    let fc = FunctionCall::new(b"doStuff".to_vec());
    let one = MultiDcdtPayment::from_payments(vec![DcdtTokenPayment::new(
        token_id("PAY-123456"),
        0,
        1000,
    )]);
    let normalized = one.with_normalized(&OWN.to_vec(), &b"receiver".to_vec(), fc);
    assert_eq!(normalized.to, b"receiver".to_vec());
    assert_eq!(
        normalized.function_call.function_name,
        b"DCDTTransfer".to_vec()
    );
    assert_eq!(
        normalized.function_call.arg_buffer,
        vec![b"PAY-123456".to_vec(), vec![3, 232], b"doStuff".to_vec()]
    );

    let fc = FunctionCall::empty();
    let many = MultiDcdtPayment::from_payments(vec![
        DcdtTokenPayment::new(token_id("PAY-123456"), 0, 5),
        DcdtTokenPayment::new(token_id("NFT-654321"), 3, 1),
    ]);
    assert!(!many.is_no_payment());
    let normalized = many.with_normalized(&OWN.to_vec(), &b"receiver".to_vec(), fc);
    assert_eq!(normalized.to, OWN.to_vec());
    assert_eq!(
        normalized.function_call.function_name,
        b"MultiDCDTNFTTransfer".to_vec()
    );
    assert_eq!(
        normalized.function_call.arg_buffer,
        vec![
            b"receiver".to_vec(),
            vec![2],
            b"PAY-123456".to_vec(),
            Vec::<u8>::new(),
            vec![5],
            b"NFT-654321".to_vec(),
            vec![3],
            vec![1],
        ]
    );
}

#[test]
fn moa_payment_normalizes_to_itself() {
    let fc = FunctionCall::new(b"doStuff".to_vec());
    let payment = MoaOrMultiDcdtPayment::Moa(5);
    assert!(!payment.is_no_payment());
    assert!(MoaOrMultiDcdtPayment::Moa(0).is_no_payment());
    let normalized = payment.with_normalized(&OWN.to_vec(), &b"receiver".to_vec(), fc);
    assert_eq!(normalized.to, b"receiver".to_vec());
    assert_eq!(normalized.moa_value, 5);
    assert_eq!(normalized.function_call.function_name, b"doStuff".to_vec());

    let data = payment.into_full_payment_data();
    assert_eq!(data.moa, Some(5));
    assert!(data.multi_dcdt.payments.is_empty());

    let many = MoaOrMultiDcdtPayment::MultiDcdt(MultiDcdtPayment::from_payments(vec![
        DcdtTokenPayment::new(token_id("PAY-123456"), 0, 5),
    ]));
    let data = many.into_full_payment_data();
    assert_eq!(data.moa, None);
    assert_eq!(data.multi_dcdt.payments.len(), 1);
}

#[test]
fn payment_wrappers_round_trip() {
    let payment = MoaOrDcdtTokenPayment::new(
        MoaOrDcdtTokenIdentifier::dcdt(token_id("PAY-123456")),
        4,
        77,
    );
    let refs = payment.as_refs();
    assert!(!refs.is_empty());
    let owned = refs.to_owned_payment();
    assert_eq!(owned, payment);

    let (id, nonce, amount) = payment.clone().into_tuple();
    assert_eq!(id, MoaOrDcdtTokenIdentifier::dcdt(token_id("PAY-123456")));
    assert_eq!(nonce, 4);
    assert_eq!(amount, 77);

    let dcdt = payment.unwrap_dcdt();
    assert_eq!(dcdt, DcdtTokenPayment::new(token_id("PAY-123456"), 4, 77));

    let nothing = MoaOrDcdtTokenPayment::no_payment();
    assert!(nothing.as_refs().is_empty());
}

#[test]
fn map_moa_or_dcdt_runs_the_matching_closure() {
    let moa = MoaOrDcdtTokenPayment::new(MoaOrDcdtTokenIdentifier::moa(), 0, 9);
    let tag = moa.map_moa_or_dcdt(
        10u32,
        |context: u32, amount: u128| amount as u32 + context,
        |_context: u32, _payment: DcdtTokenPayment| 0u32,
    );
    assert_eq!(tag, 19);

    let dcdt = MoaOrDcdtTokenPayment::new(
        MoaOrDcdtTokenIdentifier::dcdt(token_id("PAY-123456")),
        0,
        9,
    );
    let tag = dcdt.map_moa_or_dcdt(
        10u32,
        |_context: u32, _amount: u128| 0u32,
        |context: u32, payment: DcdtTokenPayment| payment.amount as u32 + context + 1,
    );
    assert_eq!(tag, 20);
}

#[test]
fn transfer_converts_to_call_with_empty_endpoint() {
    let transfer = TxTransfer {
        from: b"alice".to_vec(),
        to: b"bob".to_vec(),
        moa_value: 1000,
        dcdt_value: vec![TxDcdt {
            dcdt_token_identifier: b"PAY-123456".to_vec(),
            nonce: 0,
            dcdt_value: 50,
        }],
        gas_limit: 20000,
        gas_price: 1,
    };
    let call = transfer.to_tx_call();
    assert_eq!(call.from, b"alice".to_vec());
    assert_eq!(call.to, b"bob".to_vec());
    assert_eq!(call.moa_value, 1000);
    assert_eq!(call.dcdt_value.len(), 1);
    assert_eq!(call.dcdt_value[0].dcdt_token_identifier, b"PAY-123456".to_vec());
    assert_eq!(call.dcdt_value[0].nonce, 0);
    assert_eq!(call.dcdt_value[0].dcdt_value, 50);
    assert!(call.function.is_empty());
    assert!(call.arguments.is_empty());
    assert_eq!(call.gas_limit, 20000);
    assert_eq!(call.gas_price, 1);
}
