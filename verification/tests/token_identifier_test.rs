use dharitri_chain_vm::payment::{DcdtTokenPayment, MoaOrDcdtTokenPayment};
use dharitri_chain_vm::token::{MoaOrDcdtTokenIdentifier, TokenIdentifier};

fn token_id(s: &str) -> TokenIdentifier {
    TokenIdentifier::from_bytes(s.as_bytes().to_vec())
}

#[test]
fn test_moa() {
    assert!(MoaOrDcdtTokenIdentifier::moa().is_moa());
}

#[test]
fn test_codec() {
    let moa = MoaOrDcdtTokenIdentifier::moa();
    let repr = MoaOrDcdtTokenIdentifier::moa_representation();
    assert_eq!(moa.top_encode(), repr);
    assert!(MoaOrDcdtTokenIdentifier::from_top_encoded(repr.clone()).is_moa());

    let mut expected: Vec<u8> = vec![0, 0, 0, 3];
    expected.extend_from_slice(&repr);
    assert_eq!(moa.nested_encode(), expected);
}

#[test]
fn test_is_valid_dcdt_identifier() {
    // valid identifier
    assert!(token_id("ALC-6258d2").is_valid_dcdt_identifier());

    // valid identifier with numbers in ticker
    assert!(token_id("ALC123-6258d2").is_valid_dcdt_identifier());

    // valid ticker only numbers
    assert!(token_id("12345-6258d2").is_valid_dcdt_identifier());

    // missing dash
    assert!(!token_id("ALC6258d2").is_valid_dcdt_identifier());

    // wrong dash position
    assert!(!token_id("AL-C6258d2").is_valid_dcdt_identifier());

    // lowercase ticker
    assert!(!token_id("alc-6258d2").is_valid_dcdt_identifier());

    // uppercase random chars
    assert!(!token_id("ALC-6258D2").is_valid_dcdt_identifier());

    // too many random chars
    assert!(!token_id("ALC-6258d2ff").is_valid_dcdt_identifier());

    // ticker too short
    assert!(!token_id("AL-6258d2").is_valid_dcdt_identifier());

    // ticker too long
    assert!(!token_id("ALCCCCCCCCC-6258d2").is_valid_dcdt_identifier());
}

#[test]
fn test_ticker() {
    // valid identifier
    assert_eq!(token_id("ALC-6258d2").ticker(), b"ALC".to_vec());

    // valid identifier with numbers in ticker
    assert_eq!(token_id("ALC123-6258d2").ticker(), b"ALC123".to_vec());

    // valid ticker only numbers
    assert_eq!(token_id("12345-6258d2").ticker(), b"12345".to_vec());

    // missing dash
    assert_eq!(token_id("ALC6258d2").ticker(), b"AL".to_vec());

    // wrong dash position
    assert_eq!(token_id("AL-C6258d2").ticker(), b"AL-".to_vec());

    // lowercase ticker
    assert_eq!(token_id("alc-6258d2").ticker(), b"alc".to_vec());

    // uppercase random chars
    assert_eq!(token_id("ALC-6258D2").ticker(), b"ALC".to_vec());

    // too many random chars
    assert_eq!(token_id("ALC-6258d2ff").ticker(), b"ALC-6".to_vec());

    // ticker too short
    assert_eq!(token_id("AL-6258d2").ticker(), b"AL".to_vec());

    // ticker too long
    assert_eq!(token_id("ALCCCCCCCCC-6258d2").ticker(), b"ALCCCCCCCCC".to_vec());
}

#[test]
fn test_is_valid_moa_or_dcdt() {
    // moa is always valid
    assert!(MoaOrDcdtTokenIdentifier::moa().is_valid());

    // valid dcdt
    assert!(MoaOrDcdtTokenIdentifier::dcdt(token_id("ALC-6258d2")).is_valid());

    // invalid dcdt, see above
    assert!(!MoaOrDcdtTokenIdentifier::dcdt(token_id("ALCCCCCCCCC-6258d2")).is_valid());
}

#[test]
fn test_token_identifier_eq() {
    assert_eq!(token_id("DCDT-00000"), token_id("DCDT-00000"));
    assert_ne!(token_id("DCDT-00001"), token_id("DCDT-00002"));

    assert!(
        MoaOrDcdtTokenIdentifier::dcdt(token_id("DCDT-00003"))
            .eq_dcdt_identifier(&token_id("DCDT-00003"))
    );
    assert!(!MoaOrDcdtTokenIdentifier::moa().eq_dcdt_identifier(&token_id("ANYTHING-1234")));
    assert!(!MoaOrDcdtTokenIdentifier::moa().eq_dcdt_identifier(&token_id("MOA")));
}

#[test]
fn test_payment_eq() {
    assert_eq!(
        DcdtTokenPayment::new(token_id("PAY-00000"), 0, 1000),
        DcdtTokenPayment::new(token_id("PAY-00000"), 0, 1000),
    );
    assert_ne!(
        DcdtTokenPayment::new(token_id("PAY-00001"), 0, 1000),
        DcdtTokenPayment::new(token_id("PAY-00002"), 0, 1000),
    );
    assert_eq!(
        MoaOrDcdtTokenPayment::no_payment(),
        MoaOrDcdtTokenPayment::no_payment(),
    );
    assert_eq!(
        MoaOrDcdtTokenPayment::new(
            MoaOrDcdtTokenIdentifier::dcdt(token_id("DCDTPAY-00000")),
            0,
            1000,
        ),
        MoaOrDcdtTokenPayment::new(
            MoaOrDcdtTokenIdentifier::dcdt(token_id("DCDTPAY-00000")),
            0,
            1000,
        ),
    );
    assert_ne!(
        MoaOrDcdtTokenPayment::new(
            MoaOrDcdtTokenIdentifier::dcdt(token_id("DCDTPAY-00001")),
            0,
            1000,
        ),
        MoaOrDcdtTokenPayment::new(
            MoaOrDcdtTokenIdentifier::dcdt(token_id("DCDTPAY-00002")),
            0,
            1000,
        ),
    );
    assert_ne!(
        MoaOrDcdtTokenPayment::new(
            MoaOrDcdtTokenIdentifier::dcdt(token_id("DCDTPAY-00001")),
            0,
            1000,
        ),
        MoaOrDcdtTokenPayment::no_payment(),
    );
}

#[test]
fn test_managed_token_id_macro() {
    assert_eq!(
        MoaOrDcdtTokenIdentifier::moa(),
        MoaOrDcdtTokenIdentifier::moa()
    );
    assert_eq!(token_id("ALC-6258d2"), token_id("ALC-6258d2"));
    assert_eq!(
        MoaOrDcdtTokenIdentifier::dcdt(token_id("ALC-6258d2")).unwrap_dcdt(),
        token_id("ALC-6258d2")
    )
}
