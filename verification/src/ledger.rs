//! The account ledger: balances, nonces and code, keyed by 32-byte
//! account identifiers.
//!
//! The ledger is a list of entries with pairwise distinct keys; its
//! mathematical shape is the map from key to account. Reading a key that was
//! never written yields the empty account, so account creation is just a
//! first write.

use vstd::prelude::*;

use crate::address::AccountId32;
use crate::bytes::copy_bytes;
use crate::u256::U256;

verus! {

/// One account: balance, transaction counter, and contract code (empty for
/// an externally owned account).
///
/// A contract's storage cells live behind the external executor that runs
/// its bytecode; no rule here reads or writes them, so the ledger carries
/// only what validation and settlement touch.
#[derive(Debug, Clone, PartialEq, Eq)]
pub struct Account {
    pub balance: U256,
    pub nonce: U256,
    pub code: Vec<u8>,
}

/// The mathematical shape of an account.
pub struct AccountView {
    pub balance: nat,
    pub nonce: nat,
    pub code: Seq<u8>,
}

impl View for Account {
    type V = AccountView;

    open spec fn view(&self) -> AccountView {
        AccountView { balance: self.balance@, nonce: self.nonce@, code: self.code@ }
    }
}

/// The account a never-written key holds.
pub open spec fn spec_empty_account() -> AccountView {
    AccountView { balance: 0, nonce: 0, code: Seq::empty() }
}

impl Account {
    pub open spec fn wf(&self) -> bool {
        &&& self.balance.wf()
        &&& self.nonce.wf()
    }

    /// The empty account: no balance, no history, no code.
    pub fn empty() -> (r: Account)
        ensures
            r.wf(),
            r@ == spec_empty_account(),
    {
        let r = Account { balance: U256::zero(), nonce: U256::zero(), code: Vec::new() };
        proof {
            assert(r@.code =~= spec_empty_account().code);
        }
        r
    }

    /// Whether the account is empty: zero balance, zero nonce, no code.
    pub fn is_empty(&self) -> (r: bool)
        requires
            self.wf(),
        ensures
            r == (self@.balance == 0 && self@.nonce == 0 && self@.code.len() == 0),
    {
        let z = U256::zero();
        self.balance.eq_val(&z) && self.nonce.eq_val(&z) && self.code.len() == 0
    }

    /// A fresh account equal to this one.
    pub fn dup(&self) -> (r: Account)
        ensures
            r@ == self@,
            self.wf() ==> r.wf(),
    {
        Account {
            balance: self.balance.dup(),
            nonce: self.nonce.dup(),
            code: copy_bytes(&self.code),
        }
    }
}

/// The map a list of entries denotes; later entries would win, and the
/// ledger keeps keys distinct.
pub open spec fn map_of(s: Seq<(AccountId32, Account)>) -> Map<Seq<u8>, AccountView>
    decreases s.len(),
{
    if s.len() == 0 {
        Map::empty()
    } else {
        map_of(s.drop_last()).insert(s.last().0@, s.last().1@)
    }
}

/// Pairwise distinct keys.
pub open spec fn unique_keys(s: Seq<(AccountId32, Account)>) -> bool {
    forall|i: int, j: int| 0 <= i < j < s.len() ==> s[i].0@ != s[j].0@
}

/// What a key holds in a ledger map: its account, or the empty account.
pub open spec fn ledger_get(m: Map<Seq<u8>, AccountView>, k: Seq<u8>) -> AccountView {
    if m.dom().contains(k) {
        m[k]
    } else {
        spec_empty_account()
    }
}

/// An entry's key is in the map with that entry's account.
pub proof fn lemma_map_of_get(s: Seq<(AccountId32, Account)>, i: int)
    requires
        unique_keys(s),
        0 <= i < s.len(),
    ensures
        map_of(s).dom().contains(s[i].0@),
        map_of(s)[s[i].0@] == s[i].1@,
    decreases s.len(),
{
    if i < s.len() - 1 {
        assert(s.drop_last()[i] == s[i]);
        lemma_map_of_get(s.drop_last(), i);
        assert(s[i].0@ != s.last().0@);
    }
}

/// A key no entry carries is not in the map.
pub proof fn lemma_map_of_miss(s: Seq<(AccountId32, Account)>, k: Seq<u8>)
    requires
        forall|i: int| 0 <= i < s.len() ==> s[i].0@ != k,
    ensures
        !map_of(s).dom().contains(k),
    decreases s.len(),
{
    if s.len() > 0 {
        lemma_map_of_miss(s.drop_last(), k);
    }
}

/// Replacing the entry of a key updates the map at that key.
pub proof fn lemma_map_of_update(
    s: Seq<(AccountId32, Account)>,
    i: int,
    e: (AccountId32, Account),
)
    requires
        unique_keys(s),
        0 <= i < s.len(),
        e.0@ == s[i].0@,
    ensures
        map_of(s.update(i, e)) =~= map_of(s).insert(e.0@, e.1@),
    decreases s.len(),
{
    let t = s.update(i, e);
    if i == s.len() - 1 {
        assert(t.drop_last() =~= s.drop_last());
        assert(t.last() == e);
    } else {
        assert(t.drop_last() =~= s.drop_last().update(i, e));
        assert(s.drop_last()[i] == s[i]);
        lemma_map_of_update(s.drop_last(), i, e);
        assert(t.last() == s.last());
        assert(s[i].0@ != s.last().0@);
    }
}

/// A ledger of accounts keyed by identifier.
pub struct Ledger {
    pub entries: Vec<(AccountId32, Account)>,
}

impl View for Ledger {
    type V = Map<Seq<u8>, AccountView>;

    open spec fn view(&self) -> Map<Seq<u8>, AccountView> {
        map_of(self.entries@)
    }
}

impl Ledger {
    /// Distinct, well-formed keys and well-formed accounts.
    pub open spec fn wf(&self) -> bool {
        &&& unique_keys(self.entries@)
        &&& forall|i: int|
            0 <= i < self.entries@.len() ==> (#[trigger] self.entries@[i]).0.wf()
                && self.entries@[i].1.wf()
    }

    /// An empty ledger: every account is empty.
    pub fn new() -> (r: Ledger)
        ensures
            r.wf(),
            r@ =~= Map::<Seq<u8>, AccountView>::empty(),
    {
        Ledger { entries: Vec::new() }
    }

    /// The account an identifier holds; the empty account when unwritten.
    pub fn get_account(&self, id: &AccountId32) -> (r: Account)
        requires
            self.wf(),
            id.wf(),
        ensures
            r.wf(),
            r@ == ledger_get(self@, id@),
    {
        let n = self.entries.len();
        let mut i: usize = 0;
        while i < n
            invariant
                self.wf(),
                n == self.entries@.len(),
                i <= n,
                forall|j: int| 0 <= j < i ==> (#[trigger] self.entries@[j]).0@ != id@,
            decreases n - i,
        {
            if self.entries[i].0.eq_id(id) {
                proof {
                    lemma_map_of_get(self.entries@, i as int);
                }
                return self.entries[i].1.dup();
            }
            i = i + 1;
        }
        proof {
            lemma_map_of_miss(self.entries@, id@);
        }
        Account::empty()
    }

    /// Writes the account of an identifier, keeping other keys as they are.
    pub fn set_account(&mut self, id: AccountId32, account: Account)
        requires
            old(self).wf(),
            id.wf(),
            account.wf(),
        ensures
            final(self).wf(),
            final(self)@ =~= old(self)@.insert(id@, account@),
    {
        let n = self.entries.len();
        let mut i: usize = 0;
        while i < n
            invariant
                self.wf(),
                self@ == old(self)@,
                self.entries@ == old(self).entries@,
                n == self.entries@.len(),
                i <= n,
                id.wf(),
                account.wf(),
                forall|j: int| 0 <= j < i ==> (#[trigger] self.entries@[j]).0@ != id@,
            decreases n - i,
        {
            if self.entries[i].0.eq_id(&id) {
                proof {
                    lemma_map_of_update(self.entries@, i as int, (id, account));
                }
                let ghost pre = self.entries@;
                self.entries[i] = (id, account);
                proof {
                    assert(self.entries@ =~= pre.update(i as int, (id, account)));
                }
                return ;
            }
            i = i + 1;
        }
        let ghost pre = self.entries@;
        self.entries.push((id, account));
        proof {
            assert(self.entries@.drop_last() =~= pre);
            assert(forall|j: int|
                0 <= j < pre.len() ==> (#[trigger] pre[j]).0@ != self.entries@.last().0@);
        }
    }
}

} // verus!
