//! Plain transfer transactions of the scenario model: a value movement with
//! no endpoint, convertible to a general call with empty function and
//! arguments.

use vstd::prelude::*;
use crate::ledger::slice_to_vec;

verus! {

/// The mathematical shape of one token transfer line.
#[verifier::ext_equal]
pub ghost struct TxDcdtV {
    pub dcdt_token_identifier: Seq<u8>,
    pub nonce: u64,
    pub dcdt_value: u128,
}

/// One token transfer line: identifier, nonce, amount.
pub struct TxDcdt {
    pub dcdt_token_identifier: Vec<u8>,
    pub nonce: u64,
    pub dcdt_value: u128,
}

impl View for TxDcdt {
    type V = TxDcdtV;

    open spec fn view(&self) -> TxDcdtV {
        TxDcdtV {
            dcdt_token_identifier: self.dcdt_token_identifier@,
            nonce: self.nonce,
            dcdt_value: self.dcdt_value,
        }
    }
}

impl DeepView for TxDcdt {
    type V = TxDcdtV;

    open spec fn deep_view(&self) -> TxDcdtV {
        self.view()
    }
}

/// A plain transfer: sender, receiver, native value, token transfers, gas.
pub struct TxTransfer {
    pub from: Vec<u8>,
    pub to: Vec<u8>,
    pub moa_value: u128,
    pub dcdt_value: Vec<TxDcdt>,
    pub gas_limit: u64,
    pub gas_price: u64,
}

/// A general call: a transfer plus an endpoint and its arguments.
pub struct TxCall {
    pub from: Vec<u8>,
    pub to: Vec<u8>,
    pub moa_value: u128,
    pub dcdt_value: Vec<TxDcdt>,
    pub function: Vec<u8>,
    pub arguments: Vec<Vec<u8>>,
    pub gas_limit: u64,
    pub gas_price: u64,
}

impl TxTransfer {
    /// The transfer as a call with empty endpoint and no arguments.
    pub fn to_tx_call(&self) -> (r: TxCall)
        ensures
            r.from@ == self.from@,
            r.to@ == self.to@,
            r.moa_value == self.moa_value,
            r.dcdt_value.deep_view() == self.dcdt_value.deep_view(),
            r.function@.len() == 0,
            r.arguments@.len() == 0,
            r.gas_limit == self.gas_limit,
            r.gas_price == self.gas_price,
    {
        let mut dcdt_value: Vec<TxDcdt> = Vec::new();
        let mut i: usize = 0;
        proof {
            assert(dcdt_value.deep_view() =~= self.dcdt_value.deep_view().take(0));
        }
        while i < self.dcdt_value.len()
            invariant
                i <= self.dcdt_value@.len(),
                dcdt_value.deep_view() == self.dcdt_value.deep_view().take(i as int),
                dcdt_value@.len() == i,
            decreases self.dcdt_value@.len() - i,
        {
            let line = &self.dcdt_value[i];
            let copy = TxDcdt {
                dcdt_token_identifier: slice_to_vec(line.dcdt_token_identifier.as_slice()),
                nonce: line.nonce,
                dcdt_value: line.dcdt_value,
            };
            let ghost a0 = dcdt_value@;
            let ghost dv0 = dcdt_value.deep_view();
            dcdt_value.push(copy);
            proof {
                assert forall|t: int| 0 <= t < dcdt_value.deep_view().len() implies dcdt_value
                    .deep_view()[t] == self.dcdt_value.deep_view().take(i + 1)[t] by {
                    assert(dcdt_value@[t] == a0.push(copy)[t]);
                    if t < i {
                        assert(dcdt_value.deep_view()[t] == a0[t]@);
                        assert(dv0[t] == a0[t]@);
                    } else {
                        assert(dcdt_value.deep_view()[t] == copy@);
                        assert(self.dcdt_value.deep_view()[t] == self.dcdt_value@[t]@);
                    }
                }
                assert(dcdt_value.deep_view() =~= self.dcdt_value.deep_view().take(i + 1));
            }
            i = i + 1;
        }
        proof {
            assert(self.dcdt_value.deep_view().take(self.dcdt_value@.len() as int)
                =~= self.dcdt_value.deep_view());
        }
        TxCall {
            from: slice_to_vec(self.from.as_slice()),
            to: slice_to_vec(self.to.as_slice()),
            moa_value: self.moa_value,
            dcdt_value,
            function: Vec::new(),
            arguments: Vec::new(),
            gas_limit: self.gas_limit,
            gas_price: self.gas_price,
        }
    }
}

} // verus!
