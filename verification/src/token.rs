//! Token identifiers of the multi-asset token standard: a ticker of 3 to 10
//! uppercase alphanumeric bytes, a dash, and 6 lowercase alphanumeric random
//! bytes; and the wrapper that also admits the native currency.

use vstd::prelude::*;

verus! {

/// An uppercase letter or a digit: what a ticker may contain.
pub open spec fn is_ticker_byte(b: u8) -> bool {
    (65 <= b <= 90) || (48 <= b <= 57)
}

/// A lowercase letter or a digit: what the random suffix may contain.
pub open spec fn is_random_byte(b: u8) -> bool {
    (97 <= b <= 122) || (48 <= b <= 57)
}

/// A well-formed token identifier: `TICKER-rrrrrr`, ticker of 3 to 10
/// uppercase alphanumeric bytes, then a dash, then 6 lowercase alphanumeric
/// bytes.
pub open spec fn spec_valid_dcdt_identifier(s: Seq<u8>) -> bool {
    &&& 10 <= s.len() <= 17
    &&& s[s.len() - 7] == 45
    &&& forall|i: int| 0 <= i < s.len() - 7 ==> is_ticker_byte(#[trigger] s[i])
    &&& forall|i: int| s.len() - 6 <= i < s.len() ==> is_random_byte(#[trigger] s[i])
}

/// The byte representation that stands for the native currency.
pub open spec fn moa_repr() -> Seq<u8> {
    seq![77u8, 79u8, 65u8]
}

/// Big-endian 4-byte encoding of a length, the nested-encoding prefix.
pub open spec fn be4(n: nat) -> Seq<u8> {
    seq![
        ((n / 0x1000000) % 256) as u8,
        ((n / 0x10000) % 256) as u8,
        ((n / 0x100) % 256) as u8,
        (n % 256) as u8,
    ]
}

/// An identifier naming one token of the multi-asset standard.
#[derive(Clone, PartialEq, Eq, Debug)]
pub struct TokenIdentifier {
    pub bytes: Vec<u8>,
}

impl View for TokenIdentifier {
    type V = Seq<u8>;

    open spec fn view(&self) -> Seq<u8> {
        self.bytes@
    }
}

impl TokenIdentifier {
    /// Wraps raw bytes as a token identifier; validity is checked separately.
    pub fn from_bytes(bytes: Vec<u8>) -> (r: Self)
        ensures
            r@ == bytes@,
    {
        TokenIdentifier { bytes }
    }

    /// The identifier's raw bytes.
    pub fn as_bytes(&self) -> (r: &Vec<u8>)
        ensures
            r@ == self@,
    {
        &self.bytes
    }

    /// A copy of the identifier's raw bytes.
    pub fn to_vec(&self) -> (r: Vec<u8>)
        ensures
            r@ == self@,
    {
        self.bytes.clone()
    }

    /// Whether the identifier is well-formed for the token standard.
    pub fn is_valid_dcdt_identifier(&self) -> (r: bool)
        ensures
            r == spec_valid_dcdt_identifier(self@),
    {
        let n = self.bytes.len();
        if n < 10 || n > 17 {
            return false;
        }
        if self.bytes[n - 7] != 45 {
            return false;
        }
        let mut i: usize = 0;
        while i < n - 7
            invariant
                n == self@.len(),
                10 <= n <= 17,
                i <= n - 7,
                forall|j: int| 0 <= j < i ==> is_ticker_byte(#[trigger] self@[j]),
            decreases n - 7 - i,
        {
            let b = self.bytes[i];
            if !((65 <= b && b <= 90) || (48 <= b && b <= 57)) {
                return false;
            }
            i = i + 1;
        }
        let mut j: usize = n - 6;
        while j < n
            invariant
                n == self@.len(),
                10 <= n <= 17,
                n - 6 <= j <= n,
                forall|k: int| n - 6 <= k < j ==> is_random_byte(#[trigger] self@[k]),
            decreases n - j,
        {
            let b = self.bytes[j];
            if !((97 <= b && b <= 122) || (48 <= b && b <= 57)) {
                return false;
            }
            j = j + 1;
        }
        true
    }

    /// The ticker part: everything before the dash and the 6 random bytes.
    pub fn ticker(&self) -> (r: Vec<u8>)
        requires
            self@.len() >= 7,
        ensures
            r@ == self@.take(self@.len() - 7),
    {
        let end = self.bytes.len() - 7;
        let mut r: Vec<u8> = Vec::new();
        let mut i: usize = 0;
        while i < end
            invariant
                end == self@.len() - 7,
                i <= end,
                r@ == self@.take(i as int),
            decreases end - i,
        {
            r.push(self.bytes[i]);
            proof {
                assert(self@.take(i + 1) =~= self@.take(i as int).push(self@[i as int]));
            }
            i = i + 1;
        }
        r
    }
}

/// Either the native currency or a token of the multi-asset standard.
#[derive(Clone, PartialEq, Eq, Debug)]
pub enum MoaOrDcdtTokenIdentifier {
    Moa,
    Dcdt(TokenIdentifier),
}

impl MoaOrDcdtTokenIdentifier {
    /// The native-currency variant.
    pub fn moa() -> (r: Self)
        ensures
            r is Moa,
    {
        MoaOrDcdtTokenIdentifier::Moa
    }

    /// Wraps a token identifier.
    pub fn dcdt(token_identifier: TokenIdentifier) -> (r: Self)
        ensures
            r matches MoaOrDcdtTokenIdentifier::Dcdt(t) && t == token_identifier,
    {
        MoaOrDcdtTokenIdentifier::Dcdt(token_identifier)
    }

    /// Whether this is the native currency.
    pub fn is_moa(&self) -> (r: bool)
        ensures
            r == (self is Moa),
    {
        match self {
            MoaOrDcdtTokenIdentifier::Moa => true,
            MoaOrDcdtTokenIdentifier::Dcdt(_) => false,
        }
    }

    /// Whether this is a token of the multi-asset standard.
    pub fn is_dcdt(&self) -> (r: bool)
        ensures
            r == (self is Dcdt),
    {
        match self {
            MoaOrDcdtTokenIdentifier::Moa => false,
            MoaOrDcdtTokenIdentifier::Dcdt(_) => true,
        }
    }

    /// The native currency is always valid; a token identifier is valid when
    /// well-formed for the standard.
    pub fn is_valid(&self) -> (r: bool)
        ensures
            r == match self {
                MoaOrDcdtTokenIdentifier::Moa => true,
                MoaOrDcdtTokenIdentifier::Dcdt(t) => spec_valid_dcdt_identifier(t@),
            },
    {
        match self {
            MoaOrDcdtTokenIdentifier::Moa => true,
            MoaOrDcdtTokenIdentifier::Dcdt(t) => t.is_valid_dcdt_identifier(),
        }
    }

    /// The wrapped token identifier; the native currency carries none.
    pub fn unwrap_dcdt(self) -> (r: TokenIdentifier)
        requires
            self is Dcdt,
        ensures
            self matches MoaOrDcdtTokenIdentifier::Dcdt(t) && r == t,
    {
        match self {
            MoaOrDcdtTokenIdentifier::Moa => unreached(),
            MoaOrDcdtTokenIdentifier::Dcdt(t) => t,
        }
    }

    /// Whether this wraps exactly the given token identifier; the native
    /// currency equals no token identifier, not even one spelled like it.
    pub fn eq_dcdt_identifier(&self, other: &TokenIdentifier) -> (r: bool)
        ensures
            r == (self matches MoaOrDcdtTokenIdentifier::Dcdt(t) && t@ == other@),
    {
        match self {
            MoaOrDcdtTokenIdentifier::Moa => false,
            MoaOrDcdtTokenIdentifier::Dcdt(t) => crate::bytes::bytes_eq(t.as_bytes(), other.as_bytes()),
        }
    }

    /// The native currency's byte representation.
    pub fn moa_representation() -> (r: Vec<u8>)
        ensures
            r@ == moa_repr(),
    {
        let mut r: Vec<u8> = Vec::new();
        r.push(77);
        r.push(79);
        r.push(65);
        proof {
            assert(r@ =~= moa_repr());
        }
        r
    }

    /// Top encoding: the native currency encodes as its representation, a
    /// token as its identifier bytes.
    pub fn top_encode(&self) -> (r: Vec<u8>)
        ensures
            r@ == self.spec_top_encode(),
    {
        match self {
            MoaOrDcdtTokenIdentifier::Moa => Self::moa_representation(),
            MoaOrDcdtTokenIdentifier::Dcdt(t) => t.to_vec(),
        }
    }

    /// What `top_encode` produces.
    pub open spec fn spec_top_encode(&self) -> Seq<u8> {
        match self {
            MoaOrDcdtTokenIdentifier::Moa => moa_repr(),
            MoaOrDcdtTokenIdentifier::Dcdt(t) => t@,
        }
    }

    /// Top decoding: the native representation yields the native variant,
    /// anything else a token identifier.
    pub fn from_top_encoded(bytes: Vec<u8>) -> (r: Self)
        ensures
            bytes@ == moa_repr() ==> r is Moa,
            bytes@ != moa_repr() ==> (r matches MoaOrDcdtTokenIdentifier::Dcdt(t) && t@ == bytes@),
    {
        let repr = Self::moa_representation();
        if crate::bytes::bytes_eq(&bytes, &repr) {
            MoaOrDcdtTokenIdentifier::Moa
        } else {
            MoaOrDcdtTokenIdentifier::Dcdt(TokenIdentifier::from_bytes(bytes))
        }
    }

    /// Nested encoding: a 4-byte big-endian length prefix, then the top
    /// encoding's bytes.
    pub fn nested_encode(&self) -> (r: Vec<u8>)
        ensures
            r@ == be4(self.spec_top_encode().len()) + self.spec_top_encode(),
    {
        let payload = self.top_encode();
        let n = payload.len();
        let mut r: Vec<u8> = Vec::new();
        r.push(((n / 0x1000000) % 256) as u8);
        r.push(((n / 0x10000) % 256) as u8);
        r.push(((n / 0x100) % 256) as u8);
        r.push((n % 256) as u8);
        proof {
            assert(r@ =~= be4(payload@.len()) + payload@.take(0));
        }
        let mut i: usize = 0;
        while i < payload.len()
            invariant
                payload@ == self.spec_top_encode(),
                r@ == be4(payload@.len()) + payload@.take(i as int),
                i <= payload@.len(),
            decreases payload@.len() - i,
        {
            r.push(payload[i]);
            proof {
                assert(be4(payload@.len()) + payload@.take(i + 1)
                    =~= (be4(payload@.len()) + payload@.take(i as int)).push(payload@[i as int]));
            }
            i = i + 1;
        }
        proof {
            assert(payload@.take(payload@.len() as int) =~= payload@);
        }
        r
    }
}

} // verus!
