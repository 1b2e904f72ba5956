//! An address-keyed collection of accounts: the building block of the
//! transaction cache's state overlays and of the blockchain update diff.

use vstd::prelude::*;
use crate::ledger::{Account, AccountV};

verus! {

/// The mathematical shape of one (address, account) binding.
#[verifier::ext_equal]
pub ghost struct AccountItemV {
    pub address: Seq<u8>,
    pub account: AccountV,
}

/// One (address, account) binding.
pub struct AccountItem {
    pub address: Vec<u8>,
    pub account: Account,
}

impl View for AccountItem {
    type V = AccountItemV;

    open spec fn view(&self) -> AccountItemV {
        AccountItemV { address: self.address@, account: self.account@ }
    }
}

impl DeepView for AccountItem {
    type V = AccountItemV;

    open spec fn deep_view(&self) -> AccountItemV {
        self.view()
    }
}

/// The map a sequence of bindings denotes.
pub open spec fn accounts_map(s: Seq<AccountItemV>) -> Map<Seq<u8>, AccountV>
    decreases s.len(),
{
    if s.len() == 0 {
        Map::empty()
    } else {
        accounts_map(s.drop_last()).insert(s.last().address, s.last().account)
    }
}

/// No two bindings share an address.
pub open spec fn unique_addresses(s: Seq<AccountItemV>) -> bool {
    forall|i: int, j: int| 0 <= i < j < s.len() ==> s[i].address != s[j].address
}

/// An address is in the map exactly when some binding carries it.
pub proof fn lemma_accounts_map_contains(s: Seq<AccountItemV>, k: Seq<u8>)
    ensures
        accounts_map(s).contains_key(k) <==> (exists|i: int|
            0 <= i < s.len() && s[i].address == k),
    decreases s.len(),
{
    if s.len() > 0 {
        let sub = s.drop_last();
        lemma_accounts_map_contains(sub, k);
        if accounts_map(s).contains_key(k) {
            if s.last().address == k {
                assert(s[s.len() - 1].address == k);
            } else {
                let i = choose|i: int| 0 <= i < sub.len() && sub[i].address == k;
                assert(s[i].address == k);
            }
        }
        if exists|i: int| 0 <= i < s.len() && s[i].address == k {
            let i = choose|i: int| 0 <= i < s.len() && s[i].address == k;
            if i < s.len() - 1 {
                assert(sub[i].address == k);
            }
        }
    }
}

/// With unique addresses, the map sends each binding's address to its
/// account.
pub proof fn lemma_accounts_map_index(s: Seq<AccountItemV>, i: int)
    requires
        unique_addresses(s),
        0 <= i < s.len(),
    ensures
        accounts_map(s).contains_key(s[i].address),
        accounts_map(s)[s[i].address] == s[i].account,
    decreases s.len(),
{
    if i < s.len() - 1 {
        lemma_accounts_map_index(s.drop_last(), i);
    }
}

/// Replacing the binding at one index, address unchanged, is a map insert.
pub proof fn lemma_accounts_map_update(s: Seq<AccountItemV>, i: int, it: AccountItemV)
    requires
        unique_addresses(s),
        0 <= i < s.len(),
        it.address == s[i].address,
    ensures
        accounts_map(s.update(i, it)) == accounts_map(s).insert(it.address, it.account),
        unique_addresses(s.update(i, it)),
    decreases s.len(),
{
    let t = s.update(i, it);
    if i == s.len() - 1 {
        assert(t.drop_last() =~= s.drop_last());
        assert(t.last() == it);
        assert(accounts_map(s).insert(it.address, it.account) =~= accounts_map(
            s.drop_last(),
        ).insert(it.address, it.account));
    } else {
        lemma_accounts_map_update(s.drop_last(), i, it);
        assert(t.drop_last() =~= s.drop_last().update(i, it));
        assert(t.last() == s.last());
        assert(s[i].address != s.last().address);
        assert(accounts_map(t) =~= accounts_map(s).insert(it.address, it.account));
    }
}

/// Appending a binding under a fresh address is a map insert that keeps
/// addresses unique.
pub proof fn lemma_accounts_map_push(s: Seq<AccountItemV>, it: AccountItemV)
    requires
        unique_addresses(s),
        !accounts_map(s).contains_key(it.address),
    ensures
        accounts_map(s.push(it)) == accounts_map(s).insert(it.address, it.account),
        unique_addresses(s.push(it)),
{
    lemma_accounts_map_contains(s, it.address);
    assert(s.push(it).drop_last() =~= s);
    assert(forall|i: int| 0 <= i < s.len() ==> (#[trigger] s.push(it)[i]) == s[i]);
}

/// An address-keyed set of accounts, with unique addresses and well-formed
/// accounts.
pub struct AccountMap {
    pub items: Vec<AccountItem>,
}

impl View for AccountMap {
    type V = Map<Seq<u8>, AccountV>;

    open spec fn view(&self) -> Map<Seq<u8>, AccountV> {
        accounts_map(self.items.deep_view())
    }
}

impl AccountMap {
    /// The collection's internal invariant.
    pub open spec fn wf(&self) -> bool {
        &&& unique_addresses(self.items.deep_view())
        &&& forall|i: int|
            0 <= i < self.items@.len() ==> (#[trigger] self.items@[i]).account.wf()
    }

    /// An empty collection.
    pub fn new() -> (r: Self)
        ensures
            r.wf(),
            r@ == Map::<Seq<u8>, AccountV>::empty(),
            r.items@.len() == 0,
    {
        let r = AccountMap { items: Vec::new() };
        proof {
            assert(r.items.deep_view() =~= Seq::<AccountItemV>::empty());
        }
        r
    }

    /// The index of the binding for an address, if any.
    fn find_index(&self, address: &[u8]) -> (r: Option<usize>)
        requires
            self.wf(),
        ensures
            match r {
                Some(i) => i < self.items@.len() && self.items.deep_view()[i as int].address
                    == address@,
                None => !self@.contains_key(address@),
            },
    {
        let mut i: usize = 0;
        while i < self.items.len()
            invariant
                i <= self.items@.len(),
                forall|j: int|
                    0 <= j < i ==> (#[trigger] self.items.deep_view()[j]).address != address@,
            decreases self.items@.len() - i,
        {
            if crate::bytes::slice_eq(self.items[i].address.as_slice(), address) {
                return Some(i);
            }
            i = i + 1;
        }
        proof {
            lemma_accounts_map_contains(self.items.deep_view(), address@);
        }
        None
    }

    /// The account bound to an address, if any.
    pub fn get(&self, address: &[u8]) -> (r: Option<&Account>)
        requires
            self.wf(),
        ensures
            match r {
                Some(a) => self@.contains_key(address@) && a@ == self@[address@] && a.wf(),
                None => !self@.contains_key(address@),
            },
    {
        match self.find_index(address) {
            Some(i) => {
                proof {
                    lemma_accounts_map_index(self.items.deep_view(), i as int);
                }
                Some(&self.items[i].account)
            },
            None => None,
        }
    }

    /// Binds an address to an account, replacing any earlier binding.
    pub fn set(&mut self, address: &[u8], account: Account) -> (r: ())
        requires
            old(self).wf(),
            account.wf(),
        ensures
            final(self).wf(),
            final(self)@ == old(self)@.insert(address@, account@),
    {
        let ghost dv0 = self.items.deep_view();
        let it = AccountItem { address: crate::ledger::slice_to_vec(address), account };
        let ghost itv = it@;
        match self.find_index(address) {
            Some(i) => {
                let ghost a0 = self.items@;
                self.items[i] = it;
                proof {
                    assert forall|j: int| 0 <= j < self.items.deep_view().len() implies
                        self.items.deep_view()[j] == dv0.update(i as int, itv)[j] by {
                        assert(self.items@[j] == a0.update(i as int, it)[j]);
                        assert(self.items.deep_view()[j] == self.items@[j]@);
                        if j != i {
                            assert(dv0[j] == a0[j]@);
                        }
                    }
                    assert(self.items.deep_view() =~= dv0.update(i as int, itv));
                    lemma_accounts_map_update(dv0, i as int, itv);
                    assert forall|j: int| 0 <= j < self.items@.len() implies (#[trigger] self
                        .items@[j]).account.wf() by {
                        assert(self.items@[j] == a0.update(i as int, it)[j]);
                    }
                }
            },
            None => {
                let ghost a0 = self.items@;
                self.items.push(it);
                proof {
                    assert forall|j: int| 0 <= j < self.items.deep_view().len() implies
                        self.items.deep_view()[j] == dv0.push(itv)[j] by {
                        assert(self.items@[j] == a0.push(it)[j]);
                        assert(self.items.deep_view()[j] == self.items@[j]@);
                        if j < a0.len() {
                            assert(dv0[j] == a0[j]@);
                        }
                    }
                    assert(self.items.deep_view() =~= dv0.push(itv));
                    lemma_accounts_map_push(dv0, itv);
                    assert forall|j: int| 0 <= j < self.items@.len() implies (#[trigger] self
                        .items@[j]).account.wf() by {
                        assert(self.items@[j] == a0.push(it)[j]);
                    }
                }
            },
        }
    }

    /// How many addresses are bound.
    pub fn len(&self) -> (r: usize)
        ensures
            r == self.items@.len(),
    {
        self.items.len()
    }
}

} // verus!
