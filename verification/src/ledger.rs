//! The account ledger model: one account's native-currency balance and its
//! multi-asset token holdings, keyed by (token identifier, nonce). Nonce 0
//! denotes the fungible instance of an identifier; a positive nonce denotes
//! an individually metadata-bearing unit.

use vstd::prelude::*;
use crate::result::TxError;

verus! {

/// The mathematical shape of one token ledger entry.
#[verifier::ext_equal]
pub ghost struct TokenEntryV {
    pub token_identifier: Seq<u8>,
    pub nonce: u64,
    pub quantity: u128,
    pub attributes: Seq<u8>,
    pub creator: Seq<u8>,
    pub royalties: u32,
    pub uris: Seq<Seq<u8>>,
    pub hash: Seq<u8>,
}

/// One token ledger entry: quantity plus the metadata of a unit.
pub struct TokenEntry {
    pub token_identifier: Vec<u8>,
    pub nonce: u64,
    pub quantity: u128,
    pub attributes: Vec<u8>,
    pub creator: Vec<u8>,
    pub royalties: u32,
    pub uris: Vec<Vec<u8>>,
    pub hash: Vec<u8>,
}

impl View for TokenEntry {
    type V = TokenEntryV;

    open spec fn view(&self) -> TokenEntryV {
        TokenEntryV {
            token_identifier: self.token_identifier@,
            nonce: self.nonce,
            quantity: self.quantity,
            attributes: self.attributes@,
            creator: self.creator@,
            royalties: self.royalties,
            uris: self.uris.deep_view(),
            hash: self.hash@,
        }
    }
}

impl DeepView for TokenEntry {
    type V = TokenEntryV;

    open spec fn deep_view(&self) -> TokenEntryV {
        self.view()
    }
}

/// The key under which an entry is stored.
pub open spec fn entry_key(e: TokenEntryV) -> (Seq<u8>, u64) {
    (e.token_identifier, e.nonce)
}

/// The map a sequence of entries denotes; later entries would win, but the
/// ledger keeps keys unique.
pub open spec fn entries_map(s: Seq<TokenEntryV>) -> Map<(Seq<u8>, u64), TokenEntryV>
    decreases s.len(),
{
    if s.len() == 0 {
        Map::empty()
    } else {
        entries_map(s.drop_last()).insert(entry_key(s.last()), s.last())
    }
}

/// No two entries share a key.
pub open spec fn unique_entry_keys(s: Seq<TokenEntryV>) -> bool {
    forall|i: int, j: int|
        0 <= i < j < s.len() ==> entry_key(s[i]) != entry_key(s[j])
}

/// A key is in the entry map exactly when some entry carries it.
pub proof fn lemma_entries_map_contains(s: Seq<TokenEntryV>, k: (Seq<u8>, u64))
    ensures
        entries_map(s).contains_key(k) <==> (exists|i: int|
            0 <= i < s.len() && entry_key(s[i]) == k),
    decreases s.len(),
{
    if s.len() > 0 {
        let sub = s.drop_last();
        lemma_entries_map_contains(sub, k);
        if entries_map(s).contains_key(k) {
            if entry_key(s.last()) == k {
                assert(entry_key(s[s.len() - 1]) == k);
            } else {
                let i = choose|i: int| 0 <= i < sub.len() && entry_key(sub[i]) == k;
                assert(entry_key(s[i]) == k);
            }
        }
        if exists|i: int| 0 <= i < s.len() && entry_key(s[i]) == k {
            let i = choose|i: int| 0 <= i < s.len() && entry_key(s[i]) == k;
            if i < s.len() - 1 {
                assert(entry_key(sub[i]) == k);
            }
        }
    }
}

/// With unique keys, the map sends each entry's key to that entry.
pub proof fn lemma_entries_map_index(s: Seq<TokenEntryV>, i: int)
    requires
        unique_entry_keys(s),
        0 <= i < s.len(),
    ensures
        entries_map(s).contains_key(entry_key(s[i])),
        entries_map(s)[entry_key(s[i])] == s[i],
    decreases s.len(),
{
    if i < s.len() - 1 {
        lemma_entries_map_index(s.drop_last(), i);
    }
}

/// Replacing the entry at one index, key unchanged, is a map insert.
pub proof fn lemma_entries_map_update(s: Seq<TokenEntryV>, i: int, e: TokenEntryV)
    requires
        unique_entry_keys(s),
        0 <= i < s.len(),
        entry_key(e) == entry_key(s[i]),
    ensures
        entries_map(s.update(i, e)) == entries_map(s).insert(entry_key(e), e),
        unique_entry_keys(s.update(i, e)),
    decreases s.len(),
{
    let t = s.update(i, e);
    if i == s.len() - 1 {
        assert(t.drop_last() =~= s.drop_last());
        assert(t.last() == e);
        assert(entries_map(s).insert(entry_key(e), e) =~= entries_map(
            s.drop_last(),
        ).insert(entry_key(e), e));
    } else {
        lemma_entries_map_update(s.drop_last(), i, e);
        assert(t.drop_last() =~= s.drop_last().update(i, e));
        assert(t.last() == s.last());
        assert(entry_key(s[i]) != entry_key(s.last()));
        assert(entries_map(t) =~= entries_map(s).insert(entry_key(e), e));
    }
}

/// Appending an entry under a fresh key is a map insert that keeps keys
/// unique.
pub proof fn lemma_entries_map_push(s: Seq<TokenEntryV>, e: TokenEntryV)
    requires
        unique_entry_keys(s),
        !entries_map(s).contains_key(entry_key(e)),
    ensures
        entries_map(s.push(e)) == entries_map(s).insert(entry_key(e), e),
        unique_entry_keys(s.push(e)),
{
    lemma_entries_map_contains(s, entry_key(e));
    assert(s.push(e).drop_last() =~= s);
    assert(forall|i: int|
        0 <= i < s.len() ==> entry_key(#[trigger] s.push(e)[i]) == entry_key(s[i]));
}

/// Removing an element and reinserting another at the same index is a point
/// update, of the element sequence and of its deep view alike.
proof fn lemma_deep_view_update(
    a0: Seq<TokenEntry>,
    dv0: Seq<TokenEntryV>,
    a1: Seq<TokenEntry>,
    dv1: Seq<TokenEntryV>,
    i: int,
    e: TokenEntry,
)
    requires
        dv0.len() == a0.len(),
        forall|j: int| 0 <= j < a0.len() ==> dv0[j] == #[trigger] a0[j]@,
        dv1.len() == a1.len(),
        forall|j: int| 0 <= j < a1.len() ==> dv1[j] == #[trigger] a1[j]@,
        0 <= i < a0.len(),
        a1 == a0.remove(i).insert(i, e),
    ensures
        a1 =~= a0.update(i, e),
        dv1 =~= dv0.update(i, e@),
{
    assert(a1 =~= a0.update(i, e));
    assert forall|j: int| 0 <= j < dv1.len() implies dv1[j] == dv0.update(i, e@)[j] by {
        assert(a1[j] == a0.update(i, e)[j]);
        assert(dv1[j] == a1[j]@);
        if j != i {
            assert(dv0[j] == a0[j]@);
        }
    }
    assert(dv1 =~= dv0.update(i, e@));
}

/// A signed change to an unsigned amount: a deposit or a withdrawal.
#[derive(Clone, Copy, PartialEq, Eq, Structural, Debug)]
pub enum AmountDelta {
    Increase(u128),
    Decrease(u128),
}

/// The entry after an attribute rewrite: only the attribute payload changes;
/// identifier, nonce, quantity, creator, royalties, URIs and hash stay.
pub open spec fn attr_updated(e: TokenEntryV, attributes: Seq<u8>) -> TokenEntryV {
    TokenEntryV { attributes, ..e }
}

/// The entry a first positive deposit creates: bare metadata, only a
/// quantity.
pub open spec fn fresh_entry(token_identifier: Seq<u8>, nonce: u64, quantity: u128) -> TokenEntryV {
    TokenEntryV {
        token_identifier,
        nonce,
        quantity,
        attributes: Seq::empty(),
        creator: Seq::empty(),
        royalties: 0,
        uris: Seq::empty(),
        hash: Seq::empty(),
    }
}

/// The quantity held at a key; an absent entry holds zero.
pub open spec fn quantity_of(m: Map<(Seq<u8>, u64), TokenEntryV>, k: (Seq<u8>, u64)) -> u128 {
    if m.contains_key(k) {
        m[k].quantity
    } else {
        0
    }
}

/// What a quantity mutation does to the entry map: underflow is refused,
/// overflow is refused, and a first positive deposit creates the entry.
pub open spec fn spec_mutate_quantity(
    m: Map<(Seq<u8>, u64), TokenEntryV>,
    token_identifier: Seq<u8>,
    nonce: u64,
    delta: AmountDelta,
) -> Result<Map<(Seq<u8>, u64), TokenEntryV>, TxError> {
    let k = (token_identifier, nonce);
    let q = quantity_of(m, k);
    match delta {
        AmountDelta::Increase(d) => if q + d > u128::MAX {
            Err(TxError::ExecutionError)
        } else if m.contains_key(k) {
            Ok(m.insert(k, TokenEntryV { quantity: (q + d) as u128, ..m[k] }))
        } else if d == 0 {
            Ok(m)
        } else {
            Ok(m.insert(k, fresh_entry(token_identifier, nonce, d)))
        },
        AmountDelta::Decrease(d) => if d > q {
            Err(TxError::InsufficientTokenBalance)
        } else if m.contains_key(k) {
            Ok(m.insert(k, TokenEntryV { quantity: (q - d) as u128, ..m[k] }))
        } else {
            Ok(m)
        },
    }
}

/// The ledger of one account's token holdings.
pub struct DcdtLedger {
    pub entries: Vec<TokenEntry>,
}

impl View for DcdtLedger {
    type V = Map<(Seq<u8>, u64), TokenEntryV>;

    open spec fn view(&self) -> Map<(Seq<u8>, u64), TokenEntryV> {
        entries_map(self.entries.deep_view())
    }
}

impl DcdtLedger {
    /// The ledger's internal invariant: entry keys are unique.
    pub open spec fn wf(&self) -> bool {
        unique_entry_keys(self.entries.deep_view())
    }

    /// An empty ledger.
    pub fn new() -> (r: Self)
        ensures
            r.wf(),
            r@ == Map::<(Seq<u8>, u64), TokenEntryV>::empty(),
    {
        let r = DcdtLedger { entries: Vec::new() };
        proof {
            assert(r.entries.deep_view() =~= Seq::<TokenEntryV>::empty());
        }
        r
    }

    /// The index holding the given key, if any.
    fn find_index(&self, token_identifier: &[u8], nonce: u64) -> (r: Option<usize>)
        requires
            self.wf(),
        ensures
            match r {
                Some(i) => {
                    &&& i < self.entries@.len()
                    &&& entry_key(self.entries.deep_view()[i as int]) == (token_identifier@, nonce)
                },
                None => !self@.contains_key((token_identifier@, nonce)),
            },
    {
        let ghost k = (token_identifier@, nonce);
        let mut i: usize = 0;
        while i < self.entries.len()
            invariant
                i <= self.entries@.len(),
                forall|j: int|
                    0 <= j < i ==> entry_key(#[trigger] self.entries.deep_view()[j])
                        != (token_identifier@, nonce),
            decreases self.entries@.len() - i,
        {
            let e = &self.entries[i];
            if e.nonce == nonce && crate::bytes::slice_eq(e.token_identifier.as_slice(), token_identifier) {
                return Some(i);
            }
            i = i + 1;
        }
        proof {
            lemma_entries_map_contains(self.entries.deep_view(), k);
        }
        None
    }

    /// The entry stored under (token identifier, nonce), if any.
    pub fn get_token_entry(&self, token_identifier: &[u8], nonce: u64) -> (r: Option<
        &TokenEntry,
    >)
        requires
            self.wf(),
        ensures
            match r {
                Some(e) => self@.contains_key((token_identifier@, nonce)) && e@ == self@[(
                    token_identifier@,
                    nonce,
                )],
                None => !self@.contains_key((token_identifier@, nonce)),
            },
    {
        match self.find_index(token_identifier, nonce) {
            Some(i) => {
                proof {
                    lemma_entries_map_index(self.entries.deep_view(), i as int);
                }
                Some(&self.entries[i])
            },
            None => None,
        }
    }

    /// Replaces the entry at an index with one carrying the same key.
    fn replace_entry_at(&mut self, i: usize, e: TokenEntry)
        requires
            old(self).wf(),
            i < old(self).entries@.len(),
            entry_key(e@) == entry_key(old(self).entries.deep_view()[i as int]),
        ensures
            final(self).wf(),
            final(self)@ == old(self)@.insert(entry_key(e@), e@),
    {
        let ghost dv0 = self.entries.deep_view();
        let ghost ev = e@;
        self.entries[i] = e;
        proof {
            assert forall|j: int| 0 <= j < self.entries.deep_view().len() implies
                self.entries.deep_view()[j] == dv0.update(i as int, ev)[j] by {
            }
            assert(self.entries.deep_view() =~= dv0.update(i as int, ev));
            lemma_entries_map_update(dv0, i as int, ev);
        }
    }

    /// Applies a quantity delta at (token identifier, nonce). Fails with
    /// `InsufficientTokenBalance` on underflow and with the catch-all error
    /// on overflow; a first positive deposit creates the entry. On failure
    /// the ledger is untouched.
    pub fn mutate_token_quantity(
        &mut self,
        token_identifier: &[u8],
        nonce: u64,
        delta: AmountDelta,
    ) -> (r: Result<(), TxError>)
        requires
            old(self).wf(),
        ensures
            final(self).wf(),
            match spec_mutate_quantity(old(self)@, token_identifier@, nonce, delta) {
                Ok(m) => r is Ok && final(self)@ == m,
                Err(e) => r == Err::<(), TxError>(e) && *final(self) == *old(self),
            },
    {
        let ghost k = (token_identifier@, nonce);
        match self.find_index(token_identifier, nonce) {
            Some(i) => {
                proof {
                    lemma_entries_map_index(self.entries.deep_view(), i as int);
                }
                let q = self.entries[i].quantity;
                match delta {
                    AmountDelta::Increase(d) => {
                        if d > u128::MAX - q {
                            Err(TxError::ExecutionError)
                        } else {
                            let ghost a0 = self.entries@;
                            let ghost dv0 = self.entries.deep_view();
                            let mut e = self.entries.remove(i);
                            e.quantity = q + d;
                            self.entries.insert(i, e);
                            proof {
                                lemma_deep_view_update(a0, dv0, self.entries@, self.entries.deep_view(), i as int, e);
                                lemma_entries_map_update(dv0, i as int, e@);
                            }
                            Ok(())
                        }
                    },
                    AmountDelta::Decrease(d) => {
                        if d > q {
                            Err(TxError::InsufficientTokenBalance)
                        } else {
                            let ghost a0 = self.entries@;
                            let ghost dv0 = self.entries.deep_view();
                            let mut e = self.entries.remove(i);
                            e.quantity = q - d;
                            self.entries.insert(i, e);
                            proof {
                                lemma_deep_view_update(a0, dv0, self.entries@, self.entries.deep_view(), i as int, e);
                                lemma_entries_map_update(dv0, i as int, e@);
                            }
                            Ok(())
                        }
                    },
                }
            },
            None => {
                match delta {
                    AmountDelta::Increase(d) => {
                        if d == 0 {
                            Ok(())
                        } else {
                            let ghost dv0 = self.entries.deep_view();
                            let e = TokenEntry {
                                token_identifier: slice_to_vec(token_identifier),
                                nonce,
                                quantity: d,
                                attributes: Vec::new(),
                                creator: Vec::new(),
                                royalties: 0,
                                uris: Vec::new(),
                                hash: Vec::new(),
                            };
                            let ghost ev = e@;
                            self.entries.push(e);
                            proof {
                                assert(ev =~~= fresh_entry(token_identifier@, nonce, d));
                                assert forall|j: int| 0 <= j < self.entries.deep_view().len()
                                    implies self.entries.deep_view()[j] == dv0.push(ev)[j] by {
                                }
                                assert(self.entries.deep_view() =~= dv0.push(ev));
                                lemma_entries_map_push(dv0, ev);
                            }
                            Ok(())
                        }
                    },
                    AmountDelta::Decrease(d) => {
                        if d > 0 {
                            Err(TxError::InsufficientTokenBalance)
                        } else {
                            Ok(())
                        }
                    },
                }
            },
        }
    }

    /// Replaces the attribute payload of the entry at (token identifier,
    /// nonce); quantity, creator, royalties, URIs and hash stay untouched.
    /// Fails with `TokenNotFound`, and mutates nothing, when no entry exists.
    pub fn update_attributes(
        &mut self,
        token_identifier: &[u8],
        nonce: u64,
        new_attributes: Vec<u8>,
    ) -> (r: Result<(), TxError>)
        requires
            old(self).wf(),
        ensures
            final(self).wf(),
            old(self)@.contains_key((token_identifier@, nonce)) ==> r is Ok && final(self)@
                == old(self)@.insert(
                (token_identifier@, nonce),
                attr_updated(old(self)@[(token_identifier@, nonce)], new_attributes@),
            ),
            !old(self)@.contains_key((token_identifier@, nonce)) ==> r == Err::<(), TxError>(
                TxError::TokenNotFound,
            ) && *final(self) == *old(self),
    {
        let ghost k = (token_identifier@, nonce);
        match self.find_index(token_identifier, nonce) {
            Some(i) => {
                proof {
                    lemma_entries_map_index(self.entries.deep_view(), i as int);
                }
                let ghost a0 = self.entries@;
                let ghost dv0 = self.entries.deep_view();
                let mut e = self.entries.remove(i);
                e.attributes = new_attributes;
                self.entries.insert(i, e);
                proof {
                    lemma_deep_view_update(a0, dv0, self.entries@, self.entries.deep_view(), i as int, e);
                    lemma_entries_map_update(dv0, i as int, e@);
                }
                Ok(())
            },
            None => Err(TxError::TokenNotFound),
        }
    }
}

/// An exact copy of a token entry.
pub fn clone_entry(e: &TokenEntry) -> (r: TokenEntry)
    ensures
        r@ == e@,
{
    let r = TokenEntry {
        token_identifier: slice_to_vec(e.token_identifier.as_slice()),
        nonce: e.nonce,
        quantity: e.quantity,
        attributes: slice_to_vec(e.attributes.as_slice()),
        creator: slice_to_vec(e.creator.as_slice()),
        royalties: e.royalties,
        uris: crate::bytes::clone_bytes_list(&e.uris),
        hash: slice_to_vec(e.hash.as_slice()),
    };
    proof {
        assert(r@ =~~= e@);
    }
    r
}

/// Copies a byte slice into an owned vector.
pub fn slice_to_vec(s: &[u8]) -> (r: Vec<u8>)
    ensures
        r@ == s@,
{
    let mut r: Vec<u8> = Vec::new();
    let mut i: usize = 0;
    while i < s.len()
        invariant
            i <= s@.len(),
            r@ == s@.take(i as int),
        decreases s@.len() - i,
    {
        r.push(s[i]);
        proof {
            assert(s@.take(i + 1) =~= s@.take(i as int).push(s@[i as int]));
        }
        i = i + 1;
    }
    proof {
        assert(s@.take(s@.len() as int) =~= s@);
    }
    r
}

/// The mathematical shape of one account: a native balance and the token
/// holdings map.
#[verifier::ext_equal]
pub ghost struct AccountV {
    pub balance: u128,
    pub dcdt: Map<(Seq<u8>, u64), TokenEntryV>,
}

/// One account: native-currency balance and multi-asset token ledger.
/// An account that was never touched is the default: zero balance, no
/// tokens.
pub struct Account {
    pub balance: u128,
    pub dcdt: DcdtLedger,
}

impl View for Account {
    type V = AccountV;

    open spec fn view(&self) -> AccountV {
        AccountV { balance: self.balance, dcdt: self.dcdt@ }
    }
}

/// What a balance mutation yields: the new balance, or the failure that
/// refuses it. A result below zero is `InsufficientFunds`; one above the
/// machine bound is the catch-all error.
pub open spec fn spec_balance_after(b: u128, delta: AmountDelta) -> Result<u128, TxError> {
    match delta {
        AmountDelta::Increase(d) => if b + d <= u128::MAX {
            Ok((b + d) as u128)
        } else {
            Err(TxError::ExecutionError)
        },
        AmountDelta::Decrease(d) => if d <= b {
            Ok((b - d) as u128)
        } else {
            Err(TxError::InsufficientFunds)
        },
    }
}

/// What a balance mutation does to a whole account.
pub open spec fn spec_apply_balance(a: AccountV, delta: AmountDelta) -> Result<AccountV, TxError> {
    match spec_balance_after(a.balance, delta) {
        Ok(nb) => Ok(AccountV { balance: nb, ..a }),
        Err(e) => Err(e),
    }
}

/// What a token-quantity mutation does to a whole account.
pub open spec fn spec_apply_token_quantity(
    a: AccountV,
    token_identifier: Seq<u8>,
    nonce: u64,
    delta: AmountDelta,
) -> Result<AccountV, TxError> {
    match spec_mutate_quantity(a.dcdt, token_identifier, nonce, delta) {
        Ok(m) => Ok(AccountV { dcdt: m, ..a }),
        Err(e) => Err(e),
    }
}

/// What an attribute update does to a whole account: the entry must exist,
/// and only its attribute payload changes.
pub open spec fn spec_apply_attr_update(
    a: AccountV,
    token_identifier: Seq<u8>,
    nonce: u64,
    attributes: Seq<u8>,
) -> Result<AccountV, TxError> {
    let k = (token_identifier, nonce);
    if a.dcdt.contains_key(k) {
        Ok(AccountV { dcdt: a.dcdt.insert(k, attr_updated(a.dcdt[k], attributes)), ..a })
    } else {
        Err(TxError::TokenNotFound)
    }
}

/// Law: increasing an account's balance by `d` and then decreasing it by
/// `d` restores the account exactly, whenever the increase fits.
pub proof fn lemma_mutate_balance_round_trip(a: AccountV, d: u128)
    requires
        a.balance + d <= u128::MAX,
    ensures
        spec_apply_balance(a, AmountDelta::Increase(d)) is Ok,
        spec_apply_balance(
            spec_apply_balance(a, AmountDelta::Increase(d)).unwrap(),
            AmountDelta::Decrease(d),
        ) == Ok::<AccountV, TxError>(a),
{
    let a1 = spec_apply_balance(a, AmountDelta::Increase(d)).unwrap();
    let a2 = spec_apply_balance(a1, AmountDelta::Decrease(d)).unwrap();
    assert(a2 =~= a);
}

/// Law: an attribute update never changes the quantity, creator or royalty
/// fields of the entry it touches, never moves it to another key, and never
/// touches any other entry.
pub proof fn lemma_attr_update_preserves_fields(
    m: Map<(Seq<u8>, u64), TokenEntryV>,
    k: (Seq<u8>, u64),
    attributes: Seq<u8>,
)
    requires
        m.contains_key(k),
    ensures
        ({
            let m2 = m.insert(k, attr_updated(m[k], attributes));
            &&& m2.dom() == m.dom()
            &&& m2[k].quantity == m[k].quantity
            &&& m2[k].creator == m[k].creator
            &&& m2[k].royalties == m[k].royalties
            &&& m2[k].token_identifier == m[k].token_identifier
            &&& m2[k].nonce == m[k].nonce
            &&& m2[k].uris == m[k].uris
            &&& m2[k].hash == m[k].hash
            &&& m2[k].attributes == attributes
            &&& forall|k2: (Seq<u8>, u64)|
                k2 != k && m.contains_key(k2) ==> m2[k2] == m[k2]
        }),
{
    let m2 = m.insert(k, attr_updated(m[k], attributes));
    assert(m2.dom() =~= m.dom());
}

impl Account {
    /// The account's internal invariant: its token ledger is well formed.
    pub open spec fn wf(&self) -> bool {
        self.dcdt.wf()
    }

    /// The default account: zero balance, no tokens.
    pub fn new() -> (r: Self)
        ensures
            r.wf(),
            r.balance == 0,
            r@.dcdt == Map::<(Seq<u8>, u64), TokenEntryV>::empty(),
    {
        Account { balance: 0, dcdt: DcdtLedger::new() }
    }

    /// The account's native-currency balance.
    pub fn get_balance(&self) -> (r: u128)
        ensures
            r == self.balance,
    {
        self.balance
    }

    /// Applies a balance delta. Fails with `InsufficientFunds` when the
    /// result would be negative; on failure nothing changes.
    pub fn mutate_balance(&mut self, delta: AmountDelta) -> (r: Result<(), TxError>)
        requires
            old(self).wf(),
        ensures
            final(self).wf(),
            match spec_balance_after(old(self).balance, delta) {
                Ok(nb) => r is Ok && final(self).balance == nb && final(self).dcdt
                    == old(self).dcdt,
                Err(e) => r == Err::<(), TxError>(e) && *final(self) == *old(self),
            },
    {
        match delta {
            AmountDelta::Increase(d) => {
                if d > u128::MAX - self.balance {
                    Err(TxError::ExecutionError)
                } else {
                    self.balance = self.balance + d;
                    Ok(())
                }
            },
            AmountDelta::Decrease(d) => {
                if d > self.balance {
                    Err(TxError::InsufficientFunds)
                } else {
                    self.balance = self.balance - d;
                    Ok(())
                }
            },
        }
    }

    /// The token entry at (token identifier, nonce), if present.
    pub fn get_token_entry(&self, token_identifier: &[u8], nonce: u64) -> (r: Option<
        &TokenEntry,
    >)
        requires
            self.wf(),
        ensures
            match r {
                Some(e) => self@.dcdt.contains_key((token_identifier@, nonce)) && e@
                    == self@.dcdt[(token_identifier@, nonce)],
                None => !self@.dcdt.contains_key((token_identifier@, nonce)),
            },
    {
        self.dcdt.get_token_entry(token_identifier, nonce)
    }

    /// Applies a token-quantity delta; the balance stays untouched.
    pub fn mutate_token_quantity(
        &mut self,
        token_identifier: &[u8],
        nonce: u64,
        delta: AmountDelta,
    ) -> (r: Result<(), TxError>)
        requires
            old(self).wf(),
        ensures
            final(self).wf(),
            final(self).balance == old(self).balance,
            match spec_mutate_quantity(old(self)@.dcdt, token_identifier@, nonce, delta) {
                Ok(m) => r is Ok && final(self)@.dcdt == m,
                Err(e) => r == Err::<(), TxError>(e) && *final(self) == *old(self),
            },
    {
        self.dcdt.mutate_token_quantity(token_identifier, nonce, delta)
    }

    /// An exact copy of the account.
    pub fn clone_account(&self) -> (r: Account)
        ensures
            r@ == self@,
            self.wf() ==> r.wf(),
    {
        let mut entries: Vec<TokenEntry> = Vec::new();
        let mut i: usize = 0;
        while i < self.dcdt.entries.len()
            invariant
                i <= self.dcdt.entries@.len(),
                entries.deep_view() =~= self.dcdt.entries.deep_view().take(i as int),
            decreases self.dcdt.entries@.len() - i,
        {
            let e = clone_entry(&self.dcdt.entries[i]);
            let ghost dv_before = entries.deep_view();
            let ghost a_before = entries@;
            entries.push(e);
            proof {
                assert(dv_before.len() == a_before.len());
                assert(dv_before.len() == i);
                assert(entries@ == a_before.push(e));
                assert forall|t: int| 0 <= t < entries.deep_view().len() implies entries
                    .deep_view()[t] == self.dcdt.entries.deep_view().take(i + 1)[t] by {
                    assert(entries@[t] == a_before.push(e)[t]);
                    if t < i {
                        assert(entries@[t] == a_before[t]);
                    }
                    if t < i {
                        assert(entries.deep_view()[t] == a_before[t].deep_view());
                        assert(dv_before[t] == a_before[t].deep_view());
                        assert(dv_before[t] == self.dcdt.entries.deep_view().take(i as int)[t]);
                    } else {
                        assert(entries.deep_view()[t] == e@);
                    }
                }
                assert(entries.deep_view() =~= self.dcdt.entries.deep_view().take(i + 1));
            }
            i = i + 1;
        }
        proof {
            assert(self.dcdt.entries.deep_view().take(self.dcdt.entries@.len() as int)
                =~= self.dcdt.entries.deep_view());
        }
        let r = Account { balance: self.balance, dcdt: DcdtLedger { entries } };
        proof {
            assert(r.dcdt.entries.deep_view() == self.dcdt.entries.deep_view());
        }
        r
    }

    /// Replaces the attribute payload of one token entry; everything else,
    /// the balance included, stays untouched. Fails with `TokenNotFound`,
    /// and mutates nothing, when no entry exists at that nonce.
    pub fn update_token_attributes(
        &mut self,
        token_identifier: &[u8],
        nonce: u64,
        new_attributes: Vec<u8>,
    ) -> (r: Result<(), TxError>)
        requires
            old(self).wf(),
        ensures
            final(self).wf(),
            final(self).balance == old(self).balance,
            old(self)@.dcdt.contains_key((token_identifier@, nonce)) ==> r is Ok
                && final(self)@.dcdt == old(self)@.dcdt.insert(
                (token_identifier@, nonce),
                attr_updated(old(self)@.dcdt[(token_identifier@, nonce)], new_attributes@),
            ),
            !old(self)@.dcdt.contains_key((token_identifier@, nonce)) ==> r == Err::<
                (),
                TxError,
            >(TxError::TokenNotFound) && *final(self) == *old(self),
    {
        self.dcdt.update_attributes(token_identifier, nonce, new_attributes)
    }
}

} // verus!
