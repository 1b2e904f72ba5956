//! Payment values: a single token payment, the wrapper that also admits the
//! native currency, and multi-asset payment collections.

use vstd::prelude::*;
use crate::token::{MoaOrDcdtTokenIdentifier, TokenIdentifier};

verus! {

/// The mathematical shape of one token payment.
#[verifier::ext_equal]
pub ghost struct DcdtTokenPaymentV {
    pub token_identifier: Seq<u8>,
    pub token_nonce: u64,
    pub amount: u128,
}

/// One payment in a token of the multi-asset standard.
#[derive(Clone, PartialEq, Eq, Debug)]
pub struct DcdtTokenPayment {
    pub token_identifier: TokenIdentifier,
    pub token_nonce: u64,
    pub amount: u128,
}

impl View for DcdtTokenPayment {
    type V = DcdtTokenPaymentV;

    open spec fn view(&self) -> DcdtTokenPaymentV {
        DcdtTokenPaymentV {
            token_identifier: self.token_identifier@,
            token_nonce: self.token_nonce,
            amount: self.amount,
        }
    }
}

impl DeepView for DcdtTokenPayment {
    type V = DcdtTokenPaymentV;

    open spec fn deep_view(&self) -> DcdtTokenPaymentV {
        self.view()
    }
}

/// Whether a reference payment denotes the given token, nonce and amount.
pub open spec fn dcdt_refs_match<'a>(
    p: DcdtTokenPaymentRefs<'a>,
    token_identifier: Seq<u8>,
    token_nonce: u64,
    amount: u128,
) -> bool {
    &&& p.token_identifier@ == token_identifier
    &&& p.token_nonce == token_nonce
    &&& *p.amount == amount
}

/// References into one token payment.
pub struct DcdtTokenPaymentRefs<'a> {
    pub token_identifier: &'a TokenIdentifier,
    pub token_nonce: u64,
    pub amount: &'a u128,
}

impl DcdtTokenPayment {
    /// A payment from its three parts.
    pub fn new(token_identifier: TokenIdentifier, token_nonce: u64, amount: u128) -> (r: Self)
        ensures
            r.token_identifier == token_identifier,
            r.token_nonce == token_nonce,
            r.amount == amount,
    {
        DcdtTokenPayment { token_identifier, token_nonce, amount }
    }

    /// References to the payment's parts.
    pub fn as_refs(&self) -> (r: DcdtTokenPaymentRefs<'_>)
        ensures
            r.token_identifier@ == self.token_identifier@,
            r.token_nonce == self.token_nonce,
            r.amount == &self.amount,
    {
        DcdtTokenPaymentRefs {
            token_identifier: &self.token_identifier,
            token_nonce: self.token_nonce,
            amount: &self.amount,
        }
    }
}

/// A payment in either the native currency or a standard token.
#[derive(Clone, PartialEq, Eq, Debug)]
pub struct MoaOrDcdtTokenPayment {
    pub token_identifier: MoaOrDcdtTokenIdentifier,
    pub token_nonce: u64,
    pub amount: u128,
}

impl MoaOrDcdtTokenPayment {
    /// The canonical "nothing paid" value: native currency, nonce 0,
    /// amount 0.
    pub fn no_payment() -> (r: Self)
        ensures
            r.token_identifier is Moa,
            r.token_nonce == 0,
            r.amount == 0,
    {
        MoaOrDcdtTokenPayment {
            token_identifier: MoaOrDcdtTokenIdentifier::moa(),
            token_nonce: 0,
            amount: 0,
        }
    }

    /// A payment from its three parts.
    pub fn new(token_identifier: MoaOrDcdtTokenIdentifier, token_nonce: u64, amount: u128) -> (r:
        Self)
        ensures
            r.token_identifier == token_identifier,
            r.token_nonce == token_nonce,
            r.amount == amount,
    {
        MoaOrDcdtTokenPayment { token_identifier, token_nonce, amount }
    }

    /// The payment as a plain token payment; a native-currency payment
    /// carries no token, so the caller must have ruled it out.
    pub fn unwrap_dcdt(self) -> (r: DcdtTokenPayment)
        requires
            self.token_identifier is Dcdt,
        ensures
            self.token_identifier matches MoaOrDcdtTokenIdentifier::Dcdt(t) && r
                == (DcdtTokenPayment {
                token_identifier: t,
                token_nonce: self.token_nonce,
                amount: self.amount,
            }),
    {
        DcdtTokenPayment::new(self.token_identifier.unwrap_dcdt(), self.token_nonce, self.amount)
    }

    /// Runs exactly one of the two closures: `for_moa` on the amount for a
    /// native payment, `for_dcdt` on the token payment otherwise.
    pub fn map_moa_or_dcdt<Context, D, F, U>(self, context: Context, for_moa: D, for_dcdt: F) -> (u:
        U) where D: FnOnce(Context, u128) -> U, F: FnOnce(Context, DcdtTokenPayment) -> U
        requires
            self.token_identifier is Moa ==> for_moa.requires((context, self.amount)),
            self.token_identifier matches MoaOrDcdtTokenIdentifier::Dcdt(t) ==> for_dcdt.requires(
                (
                    context,
                    DcdtTokenPayment {
                        token_identifier: t,
                        token_nonce: self.token_nonce,
                        amount: self.amount,
                    },
                ),
            ),
        ensures
            self.token_identifier is Moa ==> for_moa.ensures((context, self.amount), u),
            self.token_identifier matches MoaOrDcdtTokenIdentifier::Dcdt(t) ==> for_dcdt.ensures(
                (
                    context,
                    DcdtTokenPayment {
                        token_identifier: t,
                        token_nonce: self.token_nonce,
                        amount: self.amount,
                    },
                ),
                u,
            ),
    {
        match self.token_identifier {
            MoaOrDcdtTokenIdentifier::Moa => for_moa(context, self.amount),
            MoaOrDcdtTokenIdentifier::Dcdt(t) => for_dcdt(
                context,
                DcdtTokenPayment {
                    token_identifier: t,
                    token_nonce: self.token_nonce,
                    amount: self.amount,
                },
            ),
        }
    }

    /// As `map_moa_or_dcdt`, but borrowing: the closures receive
    /// references.
    pub fn map_ref_moa_or_dcdt<'a, Context, D, F, U>(
        &'a self,
        context: Context,
        for_moa: D,
        for_dcdt: F,
    ) -> (u: U) where
        D: FnOnce(Context, &'a u128) -> U,
        F: FnOnce(Context, DcdtTokenPaymentRefs<'a>) -> U,

        requires
            self.token_identifier is Moa ==> for_moa.requires((context, &self.amount)),
            self.token_identifier is Dcdt ==> (forall|p: DcdtTokenPaymentRefs<'a>|
                dcdt_refs_match(
                    p,
                    self.token_identifier->Dcdt_0@,
                    self.token_nonce,
                    self.amount,
                ) ==> #[trigger] for_dcdt.requires((context, p))),
        ensures
            self.token_identifier is Moa ==> for_moa.ensures((context, &self.amount), u),
            self.token_identifier is Dcdt ==> (exists|p: DcdtTokenPaymentRefs<'a>|
                dcdt_refs_match(
                    p,
                    self.token_identifier->Dcdt_0@,
                    self.token_nonce,
                    self.amount,
                ) && #[trigger] for_dcdt.ensures((context, p), u)),
    {
        match &self.token_identifier {
            MoaOrDcdtTokenIdentifier::Moa => for_moa(context, &self.amount),
            MoaOrDcdtTokenIdentifier::Dcdt(t) => {
                let p = DcdtTokenPaymentRefs {
                    token_identifier: t,
                    token_nonce: self.token_nonce,
                    amount: &self.amount,
                };
                proof {
                    assert(dcdt_refs_match(
                        p,
                        self.token_identifier->Dcdt_0@,
                        self.token_nonce,
                        self.amount,
                    ));
                }
                for_dcdt(context, p)
            },
        }
    }

    /// The payment's three parts.
    pub fn into_tuple(self) -> (r: (MoaOrDcdtTokenIdentifier, u64, u128))
        ensures
            r == (self.token_identifier, self.token_nonce, self.amount),
    {
        (self.token_identifier, self.token_nonce, self.amount)
    }

    /// References to the payment's parts.
    pub fn as_refs(&self) -> (r: MoaOrDcdtTokenPaymentRefs<'_>)
        ensures
            r.token_identifier == &self.token_identifier,
            r.token_nonce == self.token_nonce,
            r.amount == &self.amount,
    {
        MoaOrDcdtTokenPaymentRefs::new(&self.token_identifier, self.token_nonce, &self.amount)
    }
}

/// References into a payment that may be native currency or a token.
pub struct MoaOrDcdtTokenPaymentRefs<'a> {
    pub token_identifier: &'a MoaOrDcdtTokenIdentifier,
    pub token_nonce: u64,
    pub amount: &'a u128,
}

impl<'a> MoaOrDcdtTokenPaymentRefs<'a> {
    /// Reference payment from its three parts.
    pub fn new(
        token_identifier: &'a MoaOrDcdtTokenIdentifier,
        token_nonce: u64,
        amount: &'a u128,
    ) -> (r: MoaOrDcdtTokenPaymentRefs<'a>)
        ensures
            r.token_identifier == token_identifier,
            r.token_nonce == token_nonce,
            r.amount == amount,
    {
        MoaOrDcdtTokenPaymentRefs { token_identifier, token_nonce, amount }
    }

    /// An owned copy of the referenced payment.
    pub fn to_owned_payment(&self) -> (r: MoaOrDcdtTokenPayment)
        ensures
            r.token_identifier is Moa <==> self.token_identifier is Moa,
            self.token_identifier matches MoaOrDcdtTokenIdentifier::Dcdt(t) ==> (
            r.token_identifier matches MoaOrDcdtTokenIdentifier::Dcdt(t2) && t2@ == t@),
            r.token_nonce == self.token_nonce,
            r.amount == self.amount,
    {
        let token_identifier = match self.token_identifier {
            MoaOrDcdtTokenIdentifier::Moa => MoaOrDcdtTokenIdentifier::Moa,
            MoaOrDcdtTokenIdentifier::Dcdt(t) => MoaOrDcdtTokenIdentifier::Dcdt(
                TokenIdentifier::from_bytes(t.to_vec()),
            ),
        };
        MoaOrDcdtTokenPayment { token_identifier, token_nonce: self.token_nonce, amount: *self.amount }
    }

    /// Whether nothing is paid: the amount is zero, whatever the token.
    pub fn is_empty(&self) -> (r: bool)
        ensures
            r == (self.amount == 0),
    {
        *self.amount == 0
    }

    /// Runs exactly one of the two closures, as the owned variant does.
    pub fn map_moa_or_dcdt<Context, D, F, U>(self, context: Context, for_moa: D, for_dcdt: F) -> (u:
        U) where
        D: FnOnce(Context, &'a u128) -> U,
        F: FnOnce(Context, DcdtTokenPaymentRefs<'a>) -> U,

        requires
            self.token_identifier is Moa ==> for_moa.requires((context, self.amount)),
            self.token_identifier is Dcdt ==> (forall|p: DcdtTokenPaymentRefs<'a>|
                dcdt_refs_match(
                    p,
                    self.token_identifier->Dcdt_0@,
                    self.token_nonce,
                    *self.amount,
                ) ==> #[trigger] for_dcdt.requires((context, p))),
        ensures
            self.token_identifier is Moa ==> for_moa.ensures((context, self.amount), u),
            self.token_identifier is Dcdt ==> (exists|p: DcdtTokenPaymentRefs<'a>|
                dcdt_refs_match(
                    p,
                    self.token_identifier->Dcdt_0@,
                    self.token_nonce,
                    *self.amount,
                ) && #[trigger] for_dcdt.ensures((context, p), u)),
    {
        match self.token_identifier {
            MoaOrDcdtTokenIdentifier::Moa => for_moa(context, self.amount),
            MoaOrDcdtTokenIdentifier::Dcdt(t) => {
                let p = DcdtTokenPaymentRefs {
                    token_identifier: t,
                    token_nonce: self.token_nonce,
                    amount: self.amount,
                };
                proof {
                    assert(dcdt_refs_match(
                        p,
                        self.token_identifier->Dcdt_0@,
                        self.token_nonce,
                        *self.amount,
                    ));
                }
                for_dcdt(context, p)
            },
        }
    }
}

/// Indexing the deep view of a payment list is viewing the element.
pub proof fn lemma_payments_deep_view_index(v: &Vec<DcdtTokenPayment>, i: int)
    requires
        0 <= i < v@.len(),
    ensures
        v.deep_view().len() == v@.len(),
        v.deep_view()[i] == v@[i]@,
{
}

} // verus!
