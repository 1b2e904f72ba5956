//! Contract-call values and the payment-normalization rules: a call that
//! carries token payments is rewritten into a plain call to the matching
//! transfer builtin. Zero payments leave the call alone, a single payment
//! uses the single-asset form, two or more use the generalized multi-asset
//! form.

use vstd::prelude::*;
use crate::bytes::push_bytes;
use crate::codec::{min_be, top_encode_u128, top_encode_u64};
use crate::ledger::slice_to_vec;
use crate::payment::{DcdtTokenPayment, DcdtTokenPaymentRefs, DcdtTokenPaymentV};

verus! {

/// The wire name of the fungible single-transfer builtin.
pub open spec fn dcdt_transfer_name() -> Seq<u8> {
    seq![68u8, 67, 68, 84, 84, 114, 97, 110, 115, 102, 101, 114]
}

/// The wire name of the nonce-addressed single-transfer builtin.
pub open spec fn dcdt_nft_transfer_name() -> Seq<u8> {
    seq![68u8, 67, 68, 84, 78, 70, 84, 84, 114, 97, 110, 115, 102, 101, 114]
}

/// The wire name of the generalized multi-asset transfer builtin.
pub open spec fn multi_dcdt_nft_transfer_name() -> Seq<u8> {
    seq![77u8, 117, 108, 116, 105, 68, 67, 68, 84, 78, 70, 84, 84, 114, 97, 110, 115, 102, 101, 114]
}

/// The bytes `"DCDTTransfer"`.
pub fn dcdt_transfer_func_name() -> (r: Vec<u8>)
    ensures
        r@ == dcdt_transfer_name(),
{
    let mut r: Vec<u8> = Vec::new();
    r.push(68);
    r.push(67);
    r.push(68);
    r.push(84);
    r.push(84);
    r.push(114);
    r.push(97);
    r.push(110);
    r.push(115);
    r.push(102);
    r.push(101);
    r.push(114);
    proof {
        assert(r@ =~= dcdt_transfer_name());
    }
    r
}

/// The bytes `"DCDTNFTTransfer"`.
pub fn dcdt_nft_transfer_func_name() -> (r: Vec<u8>)
    ensures
        r@ == dcdt_nft_transfer_name(),
{
    let mut r: Vec<u8> = Vec::new();
    r.push(68);
    r.push(67);
    r.push(68);
    r.push(84);
    r.push(78);
    r.push(70);
    r.push(84);
    r.push(84);
    r.push(114);
    r.push(97);
    r.push(110);
    r.push(115);
    r.push(102);
    r.push(101);
    r.push(114);
    proof {
        assert(r@ =~= dcdt_nft_transfer_name());
    }
    r
}

/// The bytes `"MultiDCDTNFTTransfer"`.
pub fn multi_dcdt_nft_transfer_func_name() -> (r: Vec<u8>)
    ensures
        r@ == multi_dcdt_nft_transfer_name(),
{
    let mut r: Vec<u8> = Vec::new();
    r.push(77);
    r.push(117);
    r.push(108);
    r.push(116);
    r.push(105);
    r.push(68);
    r.push(67);
    r.push(68);
    r.push(84);
    r.push(78);
    r.push(70);
    r.push(84);
    r.push(84);
    r.push(114);
    r.push(97);
    r.push(110);
    r.push(115);
    r.push(102);
    r.push(101);
    r.push(114);
    proof {
        assert(r@ =~= multi_dcdt_nft_transfer_name());
    }
    r
}

/// The mathematical shape of a function call.
#[verifier::ext_equal]
pub ghost struct FunctionCallV {
    pub function_name: Seq<u8>,
    pub arg_buffer: Seq<Seq<u8>>,
}

/// A function name with its ordered argument buffer.
pub struct FunctionCall {
    pub function_name: Vec<u8>,
    pub arg_buffer: Vec<Vec<u8>>,
}

impl View for FunctionCall {
    type V = FunctionCallV;

    open spec fn view(&self) -> FunctionCallV {
        FunctionCallV {
            function_name: self.function_name@,
            arg_buffer: self.arg_buffer.deep_view(),
        }
    }
}

/// Appending a call to an argument list: nothing for the empty call, else
/// the call's name followed by its own arguments.
pub open spec fn spec_append_call(args: Seq<Seq<u8>>, fc: FunctionCallV) -> Seq<Seq<u8>> {
    if fc.function_name.len() == 0 {
        args
    } else {
        args.push(fc.function_name) + fc.arg_buffer
    }
}

/// The fungible single-transfer form: `DCDTTransfer(token, amount)`, the
/// original call appended.
pub open spec fn spec_single_fungible_transfer(
    fc: FunctionCallV,
    token_identifier: Seq<u8>,
    amount: u128,
) -> FunctionCallV {
    FunctionCallV {
        function_name: dcdt_transfer_name(),
        arg_buffer: spec_append_call(seq![token_identifier, min_be(amount as nat)], fc),
    }
}

/// The nonce-addressed single-transfer form:
/// `DCDTNFTTransfer(token, nonce, amount, receiver)`, the original call
/// appended; the rewritten call is sent to the sender itself.
pub open spec fn spec_single_nft_transfer(
    fc: FunctionCallV,
    to: Seq<u8>,
    p: DcdtTokenPaymentV,
) -> FunctionCallV {
    FunctionCallV {
        function_name: dcdt_nft_transfer_name(),
        arg_buffer: spec_append_call(
            seq![
                p.token_identifier,
                min_be(p.token_nonce as nat),
                min_be(p.amount as nat),
                to,
            ],
            fc,
        ),
    }
}

/// The per-payment argument triples of the multi-asset form.
pub open spec fn spec_payment_args(ps: Seq<DcdtTokenPaymentV>) -> Seq<Seq<u8>>
    decreases ps.len(),
{
    if ps.len() == 0 {
        Seq::empty()
    } else {
        spec_payment_args(ps.drop_last()) + seq![
            ps.last().token_identifier,
            min_be(ps.last().token_nonce as nat),
            min_be(ps.last().amount as nat),
        ]
    }
}

/// The generalized multi-asset form:
/// `MultiDCDTNFTTransfer(receiver, count, (token, nonce, amount)*)`, the
/// original call appended; sent to the sender itself.
pub open spec fn spec_multi_transfer(
    fc: FunctionCallV,
    to: Seq<u8>,
    ps: Seq<DcdtTokenPaymentV>,
) -> FunctionCallV {
    FunctionCallV {
        function_name: multi_dcdt_nft_transfer_name(),
        arg_buffer: spec_append_call(
            seq![to, min_be(ps.len() as nat)] + spec_payment_args(ps),
            fc,
        ),
    }
}

impl FunctionCall {
    /// The empty call: no function, no arguments.
    pub fn empty() -> (r: Self)
        ensures
            r@.function_name.len() == 0,
            r@.arg_buffer.len() == 0,
    {
        let r = FunctionCall { function_name: Vec::new(), arg_buffer: Vec::new() };
        proof {
            assert(r@.arg_buffer =~= Seq::<Seq<u8>>::empty());
        }
        r
    }

    /// A call of the given function, with no arguments yet.
    pub fn new(function_name: Vec<u8>) -> (r: Self)
        ensures
            r@.function_name == function_name@,
            r@.arg_buffer.len() == 0,
    {
        let r = FunctionCall { function_name, arg_buffer: Vec::new() };
        proof {
            assert(r@.arg_buffer =~= Seq::<Seq<u8>>::empty());
        }
        r
    }

    /// Whether the call names no function.
    pub fn is_empty(&self) -> (r: bool)
        ensures
            r == (self@.function_name.len() == 0),
    {
        self.function_name.len() == 0
    }

    /// The call with one more argument.
    pub fn argument(self, arg: Vec<u8>) -> (r: Self)
        ensures
            r@.function_name == self@.function_name,
            r@.arg_buffer == self@.arg_buffer.push(arg@),
    {
        let mut r = self;
        push_bytes(&mut r.arg_buffer, arg);
        r
    }

    /// Appends another call: its name as one argument, then its arguments.
    /// An empty call appends nothing.
    pub fn append_function_call(self, call: FunctionCall) -> (r: Self)
        ensures
            r@.function_name == self@.function_name,
            r@.arg_buffer == spec_append_call(self@.arg_buffer, call@),
    {
        if call.function_name.len() == 0 {
            return self;
        }
        let ghost base = self@.arg_buffer;
        let ghost base_name = self@.function_name;
        let ghost callv = call@;
        let mut r = self;
        push_bytes(&mut r.arg_buffer, call.function_name);
        let mut i: usize = 0;
        while i < call.arg_buffer.len()
            invariant
                i <= call.arg_buffer@.len(),
                callv.arg_buffer == call.arg_buffer.deep_view(),
                r@.function_name == base_name,
                r@.arg_buffer =~= base.push(callv.function_name) + callv.arg_buffer.take(i as int),
            decreases call.arg_buffer@.len() - i,
        {
            proof {
                crate::bytes::lemma_bytes_list_deep_view_index(&call.arg_buffer, i as int);
                assert((base.push(callv.function_name) + callv.arg_buffer.take(i + 1)) =~= (
                base.push(callv.function_name) + callv.arg_buffer.take(i as int)).push(
                    callv.arg_buffer[i as int],
                ));
            }
            push_bytes(&mut r.arg_buffer, slice_to_vec(call.arg_buffer[i].as_slice()));
            i = i + 1;
        }
        proof {
            assert(callv.arg_buffer.take(call.arg_buffer@.len() as int) =~= callv.arg_buffer);
        }
        r
    }

    /// Rewrites the call into the fungible single-transfer form.
    pub fn convert_to_single_transfer_fungible_call(
        self,
        payment: DcdtTokenPaymentRefs<'_>,
    ) -> (r: FunctionCall)
        ensures
            r@ == spec_single_fungible_transfer(self@, payment.token_identifier@, *payment.amount),
    {
        let r = FunctionCall::new(dcdt_transfer_func_name())
            .argument(payment.token_identifier.to_vec())
            .argument(top_encode_u128(*payment.amount))
            .append_function_call(self);
        proof {
            assert(Seq::<Seq<u8>>::empty().push(payment.token_identifier@).push(
                min_be(*payment.amount as nat),
            ) =~= seq![payment.token_identifier@, min_be(*payment.amount as nat)]);
            assert(r@ =~= spec_single_fungible_transfer(
                self@,
                payment.token_identifier@,
                *payment.amount,
            ));
        }
        r
    }

    /// Rewrites the call into the nonce-addressed single-transfer form,
    /// carrying the original receiver as an argument.
    pub fn convert_to_single_transfer_nft_call(
        self,
        to: &Vec<u8>,
        payment: DcdtTokenPaymentRefs<'_>,
    ) -> (r: FunctionCall)
        ensures
            r@ == spec_single_nft_transfer(
                self@,
                to@,
                DcdtTokenPaymentV {
                    token_identifier: payment.token_identifier@,
                    token_nonce: payment.token_nonce,
                    amount: *payment.amount,
                },
            ),
    {
        let r = FunctionCall::new(dcdt_nft_transfer_func_name())
            .argument(payment.token_identifier.to_vec())
            .argument(top_encode_u64(payment.token_nonce))
            .argument(top_encode_u128(*payment.amount))
            .argument(slice_to_vec(to.as_slice()))
            .append_function_call(self);
        proof {
            assert(Seq::<Seq<u8>>::empty().push(payment.token_identifier@).push(
                min_be(payment.token_nonce as nat),
            ).push(min_be(*payment.amount as nat)).push(to@) =~= seq![
                payment.token_identifier@,
                min_be(payment.token_nonce as nat),
                min_be(*payment.amount as nat),
                to@,
            ]);
            assert(r@ =~= spec_single_nft_transfer(
                self@,
                to@,
                DcdtTokenPaymentV {
                    token_identifier: payment.token_identifier@,
                    token_nonce: payment.token_nonce,
                    amount: *payment.amount,
                },
            ));
        }
        r
    }

    /// Rewrites the call into the generalized multi-asset transfer form,
    /// carrying the original receiver and the payment count.
    pub fn convert_to_multi_transfer_dcdt_call(
        self,
        to: &Vec<u8>,
        payments: &Vec<DcdtTokenPayment>,
    ) -> (r: FunctionCall)
        ensures
            r@ == spec_multi_transfer(self@, to@, payments.deep_view()),
    {
        let ghost selfv = self@;
        let ghost psv = payments.deep_view();
        let count: u64 = payments.len() as u64;
        let mut head = FunctionCall::new(multi_dcdt_nft_transfer_func_name())
            .argument(slice_to_vec(to.as_slice()))
            .argument(top_encode_u64(count));
        proof {
            assert(psv.len() == payments@.len());
            assert(Seq::<Seq<u8>>::empty().push(to@).push(min_be(psv.len() as nat)) =~= seq![
                to@,
                min_be(psv.len() as nat),
            ]);
            assert(spec_payment_args(psv.take(0)) =~= Seq::<Seq<u8>>::empty());
            assert(head@.arg_buffer =~= seq![to@, min_be(psv.len() as nat)] + spec_payment_args(
                psv.take(0),
            ));
        }
        let mut i: usize = 0;
        while i < payments.len()
            invariant
                i <= payments@.len(),
                psv == payments.deep_view(),
                psv.len() == payments@.len(),
                head@.function_name == multi_dcdt_nft_transfer_name(),
                head@.arg_buffer =~= seq![to@, min_be(psv.len() as nat)] + spec_payment_args(
                    psv.take(i as int),
                ),
            decreases payments@.len() - i,
        {
            proof {
                crate::payment::lemma_payments_deep_view_index(payments, i as int);
                assert(psv.take(i + 1).drop_last() =~= psv.take(i as int));
                assert(psv.take(i + 1).last() == psv[i as int]);
            }
            let p = &payments[i];
            head = head.argument(p.token_identifier.to_vec()).argument(
                top_encode_u64(p.token_nonce),
            ).argument(top_encode_u128(p.amount));
            proof {
                assert(head@.arg_buffer =~= seq![to@, min_be(psv.len() as nat)]
                    + spec_payment_args(psv.take(i + 1)));
            }
            i = i + 1;
        }
        proof {
            assert(psv.take(payments@.len() as int) =~= psv);
        }
        let r = head.append_function_call(self);
        proof {
            assert(r@ =~= spec_multi_transfer(selfv, to@, psv));
        }
        r
    }
}

/// The mathematical shape of a payment-free contract call.
#[verifier::ext_equal]
pub ghost struct ContractCallNoPaymentV {
    pub to: Seq<u8>,
    pub function_call: FunctionCallV,
    pub explicit_gas_limit: u64,
}

/// A contract call without any payment: receiver, function call, gas.
pub struct ContractCallNoPayment {
    pub to: Vec<u8>,
    pub function_call: FunctionCall,
    pub explicit_gas_limit: u64,
}

impl View for ContractCallNoPayment {
    type V = ContractCallNoPaymentV;

    open spec fn view(&self) -> ContractCallNoPaymentV {
        ContractCallNoPaymentV {
            to: self.to@,
            function_call: self.function_call@,
            explicit_gas_limit: self.explicit_gas_limit,
        }
    }
}

/// The mathematical shape of a contract call with a native payment.
#[verifier::ext_equal]
pub ghost struct ContractCallWithMoaV {
    pub basic: ContractCallNoPaymentV,
    pub moa_payment: u128,
}

/// A contract call that carries a native-currency payment.
pub struct ContractCallWithMoa {
    pub basic: ContractCallNoPayment,
    pub moa_payment: u128,
}

impl View for ContractCallWithMoa {
    type V = ContractCallWithMoaV;

    open spec fn view(&self) -> ContractCallWithMoaV {
        ContractCallWithMoaV { basic: self.basic@, moa_payment: self.moa_payment }
    }
}

/// Converting a call for one token payment: a fungible payment keeps the
/// receiver and takes the fungible transfer form; a nonce-addressed payment
/// is sent to the sender's own address and takes the single-transfer form,
/// the original receiver carried as an argument. Either way the native
/// payment is zero.
pub open spec fn spec_convert_single(
    c: ContractCallWithMoaV,
    own_address: Seq<u8>,
    p: DcdtTokenPaymentV,
) -> ContractCallWithMoaV {
    if p.token_nonce == 0 {
        ContractCallWithMoaV {
            basic: ContractCallNoPaymentV {
                to: c.basic.to,
                function_call: spec_single_fungible_transfer(
                    c.basic.function_call,
                    p.token_identifier,
                    p.amount,
                ),
                explicit_gas_limit: c.basic.explicit_gas_limit,
            },
            moa_payment: 0,
        }
    } else {
        ContractCallWithMoaV {
            basic: ContractCallNoPaymentV {
                to: own_address,
                function_call: spec_single_nft_transfer(c.basic.function_call, c.basic.to, p),
                explicit_gas_limit: c.basic.explicit_gas_limit,
            },
            moa_payment: 0,
        }
    }
}

/// Converting a call for two or more token payments: sent to the sender's
/// own address in the generalized multi-asset form, native payment zero.
pub open spec fn spec_convert_multi(
    c: ContractCallWithMoaV,
    own_address: Seq<u8>,
    ps: Seq<DcdtTokenPaymentV>,
) -> ContractCallWithMoaV {
    ContractCallWithMoaV {
        basic: ContractCallNoPaymentV {
            to: own_address,
            function_call: spec_multi_transfer(c.basic.function_call, c.basic.to, ps),
            explicit_gas_limit: c.basic.explicit_gas_limit,
        },
        moa_payment: 0,
    }
}

impl ContractCallWithMoa {
    /// Rewrites the call to a plain call to the matching transfer builtin:
    /// untouched for zero payments, the single-asset form for one, the
    /// generalized multi-asset form for more. `own_address` is the calling
    /// contract's own address, the receiver of self-addressed transfers.
    pub fn convert_to_dcdt_transfer_call(
        self,
        own_address: &Vec<u8>,
        payments: &Vec<DcdtTokenPayment>,
    ) -> (r: Self)
        ensures
            payments@.len() == 0 ==> r == self,
            payments@.len() == 1 ==> r@ == spec_convert_single(
                self@,
                own_address@,
                payments.deep_view()[0],
            ),
            payments@.len() >= 2 ==> r@ == spec_convert_multi(
                self@,
                own_address@,
                payments.deep_view(),
            ),
    {
        proof {
            if payments@.len() >= 1 {
                crate::payment::lemma_payments_deep_view_index(payments, 0);
            }
        }
        if payments.len() == 0 {
            self
        } else if payments.len() == 1 {
            self.convert_to_single_transfer_dcdt_call(own_address, &payments[0])
        } else {
            self.convert_to_multi_transfer_dcdt_call(own_address, payments)
        }
    }

    /// The single-payment conversion path.
    pub fn convert_to_single_transfer_dcdt_call(
        self,
        own_address: &Vec<u8>,
        payment: &DcdtTokenPayment,
    ) -> (r: Self)
        ensures
            r@ == spec_convert_single(self@, own_address@, payment@),
    {
        let ContractCallWithMoa { basic, moa_payment: _ } = self;
        let ContractCallNoPayment { to, function_call, explicit_gas_limit } = basic;
        if payment.token_nonce == 0 {
            ContractCallWithMoa {
                basic: ContractCallNoPayment {
                    to,
                    function_call: function_call.convert_to_single_transfer_fungible_call(
                        payment.as_refs(),
                    ),
                    explicit_gas_limit,
                },
                moa_payment: 0,
            }
        } else {
            ContractCallWithMoa {
                basic: ContractCallNoPayment {
                    to: slice_to_vec(own_address.as_slice()),
                    function_call: function_call.convert_to_single_transfer_nft_call(
                        &to,
                        payment.as_refs(),
                    ),
                    explicit_gas_limit,
                },
                moa_payment: 0,
            }
        }
    }

    /// The many-payments conversion path.
    pub fn convert_to_multi_transfer_dcdt_call(
        self,
        own_address: &Vec<u8>,
        payments: &Vec<DcdtTokenPayment>,
    ) -> (r: Self)
        ensures
            r@ == spec_convert_multi(self@, own_address@, payments.deep_view()),
    {
        let ContractCallWithMoa { basic, moa_payment: _ } = self;
        let ContractCallNoPayment { to, function_call, explicit_gas_limit } = basic;
        ContractCallWithMoa {
            basic: ContractCallNoPayment {
                to: slice_to_vec(own_address.as_slice()),
                function_call: function_call.convert_to_multi_transfer_dcdt_call(&to, payments),
                explicit_gas_limit,
            },
            moa_payment: 0,
        }
    }
}

/// An ordered collection of token payments.
pub struct MultiDcdtPayment {
    pub payments: Vec<DcdtTokenPayment>,
}

/// Marks a payment value that carries a multi-asset payment.
pub trait TxPaymentMultiDcdt {

}

impl TxPaymentMultiDcdt for MultiDcdtPayment {

}

impl TxPaymentMultiDcdt for &MultiDcdtPayment {

}

/// A call normalized for execution: final receiver, native value, and the
/// function call actually sent.
pub struct NormalizedCall {
    pub to: Vec<u8>,
    pub moa_value: u128,
    pub function_call: FunctionCall,
}

/// What normalizing a multi-asset payment yields: zero payments leave the
/// call alone; one payment takes the single-asset path — fungible kept at
/// the receiver, nonce-addressed sent to the sender itself; two or more
/// take the generalized multi-asset form, sent to the sender itself. The
/// native value is always zero.
pub open spec fn spec_normalize_multi(
    ps: Seq<DcdtTokenPaymentV>,
    own_address: Seq<u8>,
    to: Seq<u8>,
    fc: FunctionCallV,
) -> (Seq<u8>, u128, FunctionCallV) {
    if ps.len() == 0 {
        (to, 0, fc)
    } else if ps.len() == 1 {
        if ps[0].token_nonce == 0 {
            (to, 0, spec_single_fungible_transfer(fc, ps[0].token_identifier, ps[0].amount))
        } else {
            (own_address, 0, spec_single_nft_transfer(fc, to, ps[0]))
        }
    } else {
        (own_address, 0, spec_multi_transfer(fc, to, ps))
    }
}

/// The payment data a call ultimately carries: an optional native payment
/// and the token payments.
pub struct FullPaymentData {
    pub moa: Option<u128>,
    pub multi_dcdt: MultiDcdtPayment,
}

impl MultiDcdtPayment {
    /// A collection from its payments.
    pub fn from_payments(payments: Vec<DcdtTokenPayment>) -> (r: Self)
        ensures
            r.payments == payments,
    {
        MultiDcdtPayment { payments }
    }

    /// Whether nothing is paid: no payment at all.
    pub fn is_no_payment(&self) -> (r: bool)
        ensures
            r == (self.payments@.len() == 0),
    {
        self.payments.len() == 0
    }

    /// Normalizes the payments into the call actually sent.
    pub fn with_normalized(
        &self,
        own_address: &Vec<u8>,
        to: &Vec<u8>,
        fc: FunctionCall,
    ) -> (r: NormalizedCall)
        ensures
            ({
                let n = spec_normalize_multi(
                    self.payments.deep_view(),
                    own_address@,
                    to@,
                    fc@,
                );
                r.to@ == n.0 && r.moa_value == n.1 && r.function_call@ == n.2
            }),
    {
        proof {
            if self.payments@.len() >= 1 {
                crate::payment::lemma_payments_deep_view_index(&self.payments, 0);
            }
        }
        if self.payments.len() == 0 {
            NormalizedCall { to: slice_to_vec(to.as_slice()), moa_value: 0, function_call: fc }
        } else if self.payments.len() == 1 {
            let p = &self.payments[0];
            if p.token_nonce == 0 {
                NormalizedCall {
                    to: slice_to_vec(to.as_slice()),
                    moa_value: 0,
                    function_call: fc.convert_to_single_transfer_fungible_call(p.as_refs()),
                }
            } else {
                NormalizedCall {
                    to: slice_to_vec(own_address.as_slice()),
                    moa_value: 0,
                    function_call: fc.convert_to_single_transfer_nft_call(to, p.as_refs()),
                }
            }
        } else {
            NormalizedCall {
                to: slice_to_vec(own_address.as_slice()),
                moa_value: 0,
                function_call: fc.convert_to_multi_transfer_dcdt_call(to, &self.payments),
            }
        }
    }

    /// The payments as full payment data: no native part.
    pub fn into_full_payment_data(self) -> (r: FullPaymentData)
        ensures
            r.moa is None,
            r.multi_dcdt == self,
    {
        FullPaymentData { moa: None, multi_dcdt: self }
    }
}

/// A payment that is either native currency or a multi-asset collection.
pub enum MoaOrMultiDcdtPayment {
    Moa(u128),
    MultiDcdt(MultiDcdtPayment),
}

impl MoaOrMultiDcdtPayment {
    /// Whether nothing is paid.
    pub fn is_no_payment(&self) -> (r: bool)
        ensures
            r == match self {
                MoaOrMultiDcdtPayment::Moa(a) => *a == 0,
                MoaOrMultiDcdtPayment::MultiDcdt(m) => m.payments@.len() == 0,
            },
    {
        match self {
            MoaOrMultiDcdtPayment::Moa(a) => *a == 0,
            MoaOrMultiDcdtPayment::MultiDcdt(m) => m.is_no_payment(),
        }
    }

    /// Normalizes the payment into the call actually sent: a native payment
    /// keeps receiver and call and carries its amount; token payments take
    /// the multi-asset normalization.
    pub fn with_normalized(
        &self,
        own_address: &Vec<u8>,
        to: &Vec<u8>,
        fc: FunctionCall,
    ) -> (r: NormalizedCall)
        ensures
            self matches MoaOrMultiDcdtPayment::Moa(a) ==> r.to@ == to@ && r.moa_value == a
                && r.function_call@ == fc@,
            self matches MoaOrMultiDcdtPayment::MultiDcdt(m) ==> ({
                let n = spec_normalize_multi(m.payments.deep_view(), own_address@, to@, fc@);
                r.to@ == n.0 && r.moa_value == n.1 && r.function_call@ == n.2
            }),
    {
        match self {
            MoaOrMultiDcdtPayment::Moa(a) => NormalizedCall {
                to: slice_to_vec(to.as_slice()),
                moa_value: *a,
                function_call: fc,
            },
            MoaOrMultiDcdtPayment::MultiDcdt(m) => m.with_normalized(own_address, to, fc),
        }
    }

    /// The payment as full payment data.
    pub fn into_full_payment_data(self) -> (r: FullPaymentData)
        ensures
            self matches MoaOrMultiDcdtPayment::Moa(a) ==> r.moa == Some(a)
                && r.multi_dcdt.payments@.len() == 0,
            self matches MoaOrMultiDcdtPayment::MultiDcdt(m) ==> r.moa is None && r.multi_dcdt
                == m,
    {
        match self {
            MoaOrMultiDcdtPayment::Moa(a) => FullPaymentData {
                moa: Some(a),
                multi_dcdt: MultiDcdtPayment { payments: Vec::new() },
            },
            MoaOrMultiDcdtPayment::MultiDcdt(m) => FullPaymentData { moa: None, multi_dcdt: m },
        }
    }
}

/// Law: the three payment arities normalize as the protocol demands. With
/// no payment the call passes through untouched; with exactly one payment
/// the result coincides with the single-payment conversion path of a
/// contract call; with two or more it takes the generalized multi-asset
/// form sent to the sender's own address.
pub proof fn lemma_normalization_arities(
    ps: Seq<DcdtTokenPaymentV>,
    own_address: Seq<u8>,
    to: Seq<u8>,
    fc: FunctionCallV,
    c: ContractCallWithMoaV,
)
    requires
        c.basic.to == to,
        c.basic.function_call == fc,
    ensures
        ps.len() == 0 ==> spec_normalize_multi(ps, own_address, to, fc) == (to, 0u128, fc),
        ps.len() == 1 ==> ({
            let converted = spec_convert_single(c, own_address, ps[0]);
            spec_normalize_multi(ps, own_address, to, fc) == (
                converted.basic.to,
                converted.moa_payment,
                converted.basic.function_call,
            )
        }),
        ps.len() >= 2 ==> ({
            let converted = spec_convert_multi(c, own_address, ps);
            spec_normalize_multi(ps, own_address, to, fc) == (
                converted.basic.to,
                converted.moa_payment,
                converted.basic.function_call,
            )
        }),
{
}

} // verus!
