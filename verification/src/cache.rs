//! The transaction cache: an ordered stack of copy-on-write state overlays
//! over a read-only snapshot of committed chain state. A read for an address
//! falls through to the overlay beneath; a write lands in the top overlay,
//! cloning the account from beneath on first write. A nested overlay is
//! pushed per sub-call and merged into its parent or discarded when the
//! sub-call returns.

use vstd::prelude::*;
use crate::accounts::{AccountMap, accounts_map};
use crate::ledger::{
    Account, AccountV, AmountDelta, TokenEntry, clone_entry, spec_apply_attr_update,
    spec_apply_balance, spec_apply_token_quantity,
};
use crate::result::TxError;

verus! {

/// The account every address implicitly holds until first touched.
pub open spec fn default_account() -> AccountV {
    AccountV { balance: 0, dcdt: Map::empty() }
}

/// Fallthrough lookup: the topmost overlay that binds the address decides;
/// beneath all overlays stands the committed base snapshot.
pub open spec fn scoped_lookup(
    layers: Seq<Map<Seq<u8>, AccountV>>,
    base: Map<Seq<u8>, AccountV>,
    address: Seq<u8>,
) -> Option<AccountV>
    decreases layers.len(),
{
    if layers.len() == 0 {
        if base.contains_key(address) {
            Some(base[address])
        } else {
            None
        }
    } else if layers.last().contains_key(address) {
        Some(layers.last()[address])
    } else {
        scoped_lookup(layers.drop_last(), base, address)
    }
}

/// Inserting into the top overlay decides the inserted address and leaves
/// every other address's lookup alone.
pub proof fn lemma_lookup_after_top_insert(
    lv: Seq<Map<Seq<u8>, AccountV>>,
    base: Map<Seq<u8>, AccountV>,
    address: Seq<u8>,
    a: AccountV,
)
    requires
        lv.len() >= 1,
    ensures
        scoped_lookup(lv.update(lv.len() - 1, lv.last().insert(address, a)), base, address)
            == Some(a),
        forall|a2: Seq<u8>|
            a2 != address ==> scoped_lookup(
                lv.update(lv.len() - 1, lv.last().insert(address, a)),
                base,
                a2,
            ) == scoped_lookup(lv, base, a2),
{
    let lv2 = lv.update(lv.len() - 1, lv.last().insert(address, a));
    assert(lv2.last() == lv.last().insert(address, a));
    assert(lv2.drop_last() =~= lv.drop_last());
    assert forall|a2: Seq<u8>| a2 != address implies scoped_lookup(lv2, base, a2)
        == scoped_lookup(lv, base, a2) by {
        assert(lv2.last().contains_key(a2) == lv.last().contains_key(a2));
        if lv.last().contains_key(a2) {
            assert(lv2.last()[a2] == lv.last()[a2]);
        }
    }
}

/// The flattened diff a top-level transaction produced: the set of account
/// mutations, ready to be merged into committed chain state.
pub struct BlockchainUpdate {
    pub accounts: AccountMap,
}

impl View for BlockchainUpdate {
    type V = Map<Seq<u8>, AccountV>;

    open spec fn view(&self) -> Map<Seq<u8>, AccountV> {
        self.accounts@
    }
}

impl BlockchainUpdate {
    /// The update's internal invariant.
    pub open spec fn wf(&self) -> bool {
        self.accounts.wf()
    }

    /// The empty diff: no state change.
    pub fn empty() -> (r: Self)
        ensures
            r.wf(),
            r@ == Map::<Seq<u8>, AccountV>::empty(),
            r.accounts.items@.len() == 0,
    {
        BlockchainUpdate { accounts: AccountMap::new() }
    }

    /// Whether the diff holds no mutation at all.
    pub fn is_empty(&self) -> (r: bool)
        ensures
            r == (self.accounts.items@.len() == 0),
    {
        self.accounts.len() == 0
    }
}

/// The per-transaction working set: a committed base snapshot and a stack
/// of overlays, never empty.
pub struct TxCache {
    pub base: AccountMap,
    pub layers: Vec<AccountMap>,
}

impl TxCache {
    /// The overlay stack as a sequence of address-to-account maps, bottom
    /// first.
    pub open spec fn layers_view(&self) -> Seq<Map<Seq<u8>, AccountV>> {
        Seq::new(self.layers@.len(), |i: int| self.layers@[i]@)
    }

    /// The cache's internal invariant.
    pub open spec fn wf(&self) -> bool {
        &&& self.base.wf()
        &&& self.layers@.len() >= 1
        &&& forall|i: int| 0 <= i < self.layers@.len() ==> (#[trigger] self.layers@[i]).wf()
    }

    /// The account state an address denotes, overlays consulted top-down.
    pub open spec fn lookup(&self, address: Seq<u8>) -> Option<AccountV> {
        scoped_lookup(self.layers_view(), self.base@, address)
    }

    /// The account an address effectively holds; an address never touched
    /// and absent from the base holds the default account.
    pub open spec fn account_state(&self, address: Seq<u8>) -> AccountV {
        match self.lookup(address) {
            Some(a) => a,
            None => default_account(),
        }
    }

    /// A fresh cache over a committed snapshot, with one empty overlay.
    pub fn new(base: AccountMap) -> (r: Self)
        requires
            base.wf(),
        ensures
            r.wf(),
            r.base@ == base@,
            r.layers_view() == seq![Map::<Seq<u8>, AccountV>::empty()],
    {
        let mut layers: Vec<AccountMap> = Vec::new();
        layers.push(AccountMap::new());
        let r = TxCache { base, layers };
        proof {
            assert(r.layers_view() =~= seq![Map::<Seq<u8>, AccountV>::empty()]);
        }
        r
    }

    /// A private copy of the account an address effectively holds, found by
    /// fallthrough; absent addresses yield the default account.
    pub fn get_account(&self, address: &[u8]) -> (r: Account)
        requires
            self.wf(),
        ensures
            r.wf(),
            r@ == self.account_state(address@),
    {
        let ghost lv = self.layers_view();
        proof {
            assert(lv.take(lv.len() as int) =~= lv);
        }
        let mut li: usize = self.layers.len();
        while li > 0
            invariant
                self.wf(),
                li <= self.layers@.len(),
                lv == self.layers_view(),
                scoped_lookup(lv, self.base@, address@) == scoped_lookup(
                    lv.take(li as int),
                    self.base@,
                    address@,
                ),
            decreases li,
        {
            li = li - 1;
            proof {
                assert(lv.take(li + 1).last() == lv[li as int]);
                assert(lv.take(li + 1).drop_last() =~= lv.take(li as int));
            }
            match self.layers[li].get(address) {
                Some(a) => {
                    return a.clone_account();
                },
                None => {
                },
            }
        }
        proof {
            assert(lv.take(0) =~= Seq::<Map<Seq<u8>, AccountV>>::empty());
        }
        match self.base.get(address) {
            Some(a) => a.clone_account(),
            None => {
                let r = Account::new();
                proof {
                    assert(r@ =~= default_account());
                }
                r
            },
        }
    }

    /// Binds an address to an account in the top overlay. Overlays beneath,
    /// and the base, stay untouched.
    pub fn set_account(&mut self, address: &[u8], account: Account)
        requires
            old(self).wf(),
            account.wf(),
        ensures
            final(self).wf(),
            final(self).base == old(self).base,
            final(self).layers@.len() == old(self).layers@.len(),
            final(self).layers_view() == old(self).layers_view().update(
                old(self).layers@.len() - 1,
                old(self).layers_view().last().insert(address@, account@),
            ),
            final(self).layers_view().drop_last() == old(self).layers_view().drop_last(),
            final(self).account_state(address@) == account@,
            forall|a2: Seq<u8>|
                a2 != address@ ==> final(self).lookup(a2) == old(self).lookup(a2),
    {
        let ghost lv0 = self.layers_view();
        let ghost acct = account@;
        let mut top = self.layers.pop().unwrap();
        top.set(address, account);
        self.layers.push(top);
        proof {
            let lv1 = self.layers_view();
            let target = lv0.update(lv0.len() - 1, lv0.last().insert(address@, acct));
            assert forall|j: int| 0 <= j < lv1.len() implies lv1[j] == target[j] by {
                if j < lv1.len() - 1 {
                    assert(self.layers@[j] == old(self).layers@[j]);
                }
            }
            assert(lv1 =~= target);
            assert(lv1.drop_last() =~= lv0.drop_last());
            lemma_lookup_after_top_insert(lv0, self.base@, address@, acct);
        }
    }

    /// Begins a nested overlay for a sub-call.
    pub fn push_scope(&mut self)
        requires
            old(self).wf(),
        ensures
            final(self).wf(),
            final(self).base == old(self).base,
            final(self).layers_view() == old(self).layers_view().push(
                Map::<Seq<u8>, AccountV>::empty(),
            ),
    {
        self.layers.push(AccountMap::new());
        proof {
            assert forall|j: int| 0 <= j < self.layers_view().len() implies self.layers_view()[j]
                == old(self).layers_view().push(Map::<Seq<u8>, AccountV>::empty())[j] by {
                if j < self.layers_view().len() - 1 {
                    assert(self.layers@[j] == old(self).layers@[j]);
                }
            }
            assert(self.layers_view() =~= old(self).layers_view().push(
                Map::<Seq<u8>, AccountV>::empty(),
            ));
        }
    }

    /// Ends the top overlay: merged into its parent when `commit` holds,
    /// discarded — leaving the parent byte-for-byte unchanged — when it does
    /// not.
    pub fn pop_scope(&mut self, commit: bool)
        requires
            old(self).wf(),
            old(self).layers@.len() >= 2,
        ensures
            final(self).wf(),
            final(self).base == old(self).base,
            final(self).layers@.len() == old(self).layers@.len() - 1,
            !commit ==> final(self).layers_view() == old(self).layers_view().drop_last(),
            commit ==> final(self).layers_view() == old(self).layers_view().drop_last().update(
                old(self).layers@.len() - 2,
                old(self).layers_view()[old(self).layers@.len() - 2].union_prefer_right(
                    old(self).layers_view().last(),
                ),
            ),
    {
        let ghost lv0 = self.layers_view();
        let top = self.layers.pop().unwrap();
        if commit {
            let ghost top_map = top@;
            let mut parent = self.layers.pop().unwrap();
            let ghost parent0 = parent@;
            let items = top.items;
            let ghost top_dv = items.deep_view();
            proof {
                assert(accounts_map(top_dv.take(0)) =~= Map::<Seq<u8>, AccountV>::empty());
                assert(parent@ =~= parent0.union_prefer_right(accounts_map(top_dv.take(0))));
            }
            let mut i: usize = 0;
            while i < items.len()
                invariant
                    i <= items@.len(),
                    top_dv == items.deep_view(),
                    crate::accounts::unique_addresses(top_dv),
                    forall|j: int|
                        0 <= j < items@.len() ==> (#[trigger] items@[j]).account.wf(),
                    parent.wf(),
                    parent@ == parent0.union_prefer_right(accounts_map(top_dv.take(i as int))),
                decreases items@.len() - i,
            {
                let a = items[i].account.clone_account();
                parent.set(items[i].address.as_slice(), a);
                proof {
                    assert(top_dv.take(i + 1).drop_last() =~= top_dv.take(i as int));
                    assert(top_dv.take(i + 1).last() == top_dv[i as int]);
                    assert(accounts_map(top_dv.take(i + 1)) == accounts_map(
                        top_dv.take(i as int),
                    ).insert(top_dv[i as int].address, top_dv[i as int].account));
                    assert(parent@ =~= parent0.union_prefer_right(
                        accounts_map(top_dv.take(i + 1)),
                    ));
                }
                i = i + 1;
            }
            proof {
                assert(top_dv.take(items@.len() as int) =~= top_dv);
                assert(parent@ == parent0.union_prefer_right(top_map));
            }
            self.layers.push(parent);
            proof {
                let lv1 = self.layers_view();
                let target = lv0.drop_last().update(
                    lv0.len() - 2,
                    lv0[lv0.len() - 2].union_prefer_right(lv0.last()),
                );
                assert forall|j: int| 0 <= j < lv1.len() implies lv1[j] == target[j] by {
                    if j < lv1.len() - 1 {
                        assert(self.layers@[j] == old(self).layers@[j]);
                    }
                }
                assert(lv1 =~= target);
            }
        } else {
            proof {
                assert forall|j: int| 0 <= j < self.layers_view().len() implies self
                    .layers_view()[j] == lv0.drop_last()[j] by {
                    assert(self.layers@[j] == old(self).layers@[j]);
                }
                assert(self.layers_view() =~= lv0.drop_last());
            }
        }
    }

    /// Consumes the top-level cache, all nested scopes resolved, and
    /// returns the flattened diff: exactly the accounts the transaction
    /// wrote.
    pub fn into_blockchain_update(self) -> (r: BlockchainUpdate)
        requires
            self.wf(),
            self.layers@.len() == 1,
        ensures
            r.wf(),
            r@ == self.layers_view()[0],
    {
        let mut layers = self.layers;
        let top = layers.pop().unwrap();
        BlockchainUpdate { accounts: top }
    }

    /// Scoped mutable access to an account: the closure receives the
    /// account the address effectively holds — a default account if the
    /// address was never touched — and the account it returns is captured
    /// in the current overlay.
    pub fn with_account_mut<F: FnOnce(Account) -> Account>(&mut self, address: &[u8], f: F)
        requires
            old(self).wf(),
            forall|a: Account|
                a.wf() && a@ == old(self).account_state(address@) ==> f.requires((a,)),
            forall|a: Account, r: Account| #[trigger]
                f.ensures((a,), r) ==> r.wf(),
        ensures
            final(self).wf(),
            final(self).base == old(self).base,
            final(self).layers@.len() == old(self).layers@.len(),
            final(self).layers_view().drop_last() == old(self).layers_view().drop_last(),
            exists|a: Account, r: Account|
                {
                    &&& a.wf()
                    &&& a@ == old(self).account_state(address@)
                    &&& #[trigger] f.ensures((a,), r)
                    &&& final(self).account_state(address@) == r@
                    &&& final(self).layers_view() == old(self).layers_view().update(
                        old(self).layers@.len() - 1,
                        old(self).layers_view().last().insert(address@, r@),
                    )
                },
            forall|a2: Seq<u8>|
                a2 != address@ ==> final(self).lookup(a2) == old(self).lookup(a2),
    {
        let a = self.get_account(address);
        let ghost a0 = a;
        let r = f(a);
        self.set_account(address, r);
    }

    /// The native-currency balance an address effectively holds.
    pub fn get_balance(&self, address: &[u8]) -> (r: u128)
        requires
            self.wf(),
        ensures
            r == self.account_state(address@).balance,
    {
        let a = self.get_account(address);
        a.balance
    }

    /// A copy of the token entry an address holds at (token identifier,
    /// nonce), if any.
    pub fn get_token_entry(&self, address: &[u8], token_identifier: &[u8], nonce: u64) -> (r:
        Option<TokenEntry>)
        requires
            self.wf(),
        ensures
            match r {
                Some(e) => self.account_state(address@).dcdt.contains_key(
                    (token_identifier@, nonce),
                ) && e@ == self.account_state(address@).dcdt[(token_identifier@, nonce)],
                None => !self.account_state(address@).dcdt.contains_key(
                    (token_identifier@, nonce),
                ),
            },
    {
        let a = self.get_account(address);
        match a.get_token_entry(token_identifier, nonce) {
            Some(e) => Some(clone_entry(e)),
            None => None,
        }
    }

    /// Applies a balance delta to the account an address holds; the change
    /// is captured in the top overlay. On failure the cache is untouched.
    pub fn mutate_balance(&mut self, address: &[u8], delta: AmountDelta) -> (r: Result<
        (),
        TxError,
    >)
        requires
            old(self).wf(),
        ensures
            final(self).wf(),
            final(self).base == old(self).base,
            final(self).layers@.len() == old(self).layers@.len(),
            final(self).layers_view().drop_last() == old(self).layers_view().drop_last(),
            match spec_apply_balance(old(self).account_state(address@), delta) {
                Ok(a2) => {
                    &&& r is Ok
                    &&& final(self).account_state(address@) == a2
                    &&& final(self).layers_view() == old(self).layers_view().update(
                        old(self).layers@.len() - 1,
                        old(self).layers_view().last().insert(address@, a2),
                    )
                    &&& forall|a3: Seq<u8>|
                        a3 != address@ ==> final(self).lookup(a3) == old(self).lookup(a3)
                },
                Err(e) => r == Err::<(), TxError>(e) && *final(self) == *old(self),
            },
    {
        let mut a = self.get_account(address);
        match a.mutate_balance(delta) {
            Ok(_) => {
                proof {
                    assert(a@ =~= spec_apply_balance(
                        old(self).account_state(address@),
                        delta,
                    ).unwrap());
                }
                self.set_account(address, a);
                Ok(())
            },
            Err(e) => Err(e),
        }
    }

    /// Applies a token-quantity delta to the account an address holds. On
    /// failure the cache is untouched.
    pub fn mutate_token_quantity(
        &mut self,
        address: &[u8],
        token_identifier: &[u8],
        nonce: u64,
        delta: AmountDelta,
    ) -> (r: Result<(), TxError>)
        requires
            old(self).wf(),
        ensures
            final(self).wf(),
            final(self).base == old(self).base,
            final(self).layers@.len() == old(self).layers@.len(),
            final(self).layers_view().drop_last() == old(self).layers_view().drop_last(),
            match spec_apply_token_quantity(
                old(self).account_state(address@),
                token_identifier@,
                nonce,
                delta,
            ) {
                Ok(a2) => {
                    &&& r is Ok
                    &&& final(self).account_state(address@) == a2
                    &&& final(self).layers_view() == old(self).layers_view().update(
                        old(self).layers@.len() - 1,
                        old(self).layers_view().last().insert(address@, a2),
                    )
                    &&& forall|a3: Seq<u8>|
                        a3 != address@ ==> final(self).lookup(a3) == old(self).lookup(a3)
                },
                Err(e) => r == Err::<(), TxError>(e) && *final(self) == *old(self),
            },
    {
        let mut a = self.get_account(address);
        match a.mutate_token_quantity(token_identifier, nonce, delta) {
            Ok(_) => {
                proof {
                    assert(a@ =~= spec_apply_token_quantity(
                        old(self).account_state(address@),
                        token_identifier@,
                        nonce,
                        delta,
                    ).unwrap());
                }
                self.set_account(address, a);
                Ok(())
            },
            Err(e) => Err(e),
        }
    }

    /// Rewrites the attribute payload of one token entry of the account an
    /// address holds; quantity, creator and royalties stay. Fails with
    /// `TokenNotFound`, leaving the cache untouched, when no entry exists.
    pub fn update_token_attributes(
        &mut self,
        address: &[u8],
        token_identifier: &[u8],
        nonce: u64,
        new_attributes: Vec<u8>,
    ) -> (r: Result<(), TxError>)
        requires
            old(self).wf(),
        ensures
            final(self).wf(),
            final(self).base == old(self).base,
            final(self).layers@.len() == old(self).layers@.len(),
            final(self).layers_view().drop_last() == old(self).layers_view().drop_last(),
            match spec_apply_attr_update(
                old(self).account_state(address@),
                token_identifier@,
                nonce,
                new_attributes@,
            ) {
                Ok(a2) => {
                    &&& r is Ok
                    &&& final(self).account_state(address@) == a2
                    &&& final(self).layers_view() == old(self).layers_view().update(
                        old(self).layers@.len() - 1,
                        old(self).layers_view().last().insert(address@, a2),
                    )
                    &&& forall|a3: Seq<u8>|
                        a3 != address@ ==> final(self).lookup(a3) == old(self).lookup(a3)
                },
                Err(e) => r == Err::<(), TxError>(e) && *final(self) == *old(self),
            },
    {
        let mut a = self.get_account(address);
        match a.update_token_attributes(token_identifier, nonce, new_attributes) {
            Ok(_) => {
                proof {
                    assert(a@ =~= spec_apply_attr_update(
                        old(self).account_state(address@),
                        token_identifier@,
                        nonce,
                        new_attributes@,
                    ).unwrap());
                }
                self.set_account(address, a);
                Ok(())
            },
            Err(e) => Err(e),
        }
    }
}

/// Law: a discarded nested scope is indistinguishable from the nested work
/// never having happened. After a scope is pushed, any run of mutations
/// that stays confined to the top overlay, and a discarding pop, the
/// layers — and with them every address's state — equal their pre-push
/// values.
pub proof fn lemma_nested_scope_discard(c0: TxCache, c1: TxCache, c2: TxCache, c3: TxCache)
    requires
        c1.layers_view() == c0.layers_view().push(Map::<Seq<u8>, AccountV>::empty()),
        c1.base@ == c0.base@,
        c2.layers_view().len() == c1.layers_view().len(),
        c2.layers_view().drop_last() == c1.layers_view().drop_last(),
        c2.base@ == c1.base@,
        c3.layers_view() == c2.layers_view().drop_last(),
        c3.base@ == c2.base@,
    ensures
        c3.layers_view() == c0.layers_view(),
        c3.base@ == c0.base@,
        forall|address: Seq<u8>| c3.lookup(address) == c0.lookup(address),
        forall|address: Seq<u8>| c3.account_state(address) == c0.account_state(address),
{
    assert(c1.layers_view().drop_last() =~= c0.layers_view());
    assert(c3.layers_view() == c0.layers_view());
}

} // verus!
