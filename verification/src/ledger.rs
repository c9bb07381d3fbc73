use vstd::prelude::*;

use crate::deriver::{seed_views, spec_address_with_bump, address_with_bump};

verus! {

/// The error kinds of the vault; every failure of an operation is reported
/// as one of these and aborts the operation with no effect.
#[derive(Clone, Copy, PartialEq, Eq, Structural, Debug)]
pub enum VaultError {
    /// An account's asset-type, authority, or derived-address binding does
    /// not match what the operation declares.
    ConstraintViolation,
    /// The requested amount exceeds the source account's balance.
    InsufficientBalance,
    /// The state record's address is already occupied.
    DuplicateInitialization,
    /// A required signature is absent, or the derived-authority
    /// recomputation does not match.
    MissingAuthorization,
}

/// An asset-custody account of the external ledger: it holds `balance`
/// units of the asset `asset` and is controlled by `authority`.
#[derive(Clone, Copy, PartialEq, Eq, Structural, Debug)]
pub struct AssetAccount {
    pub address: u64,
    pub asset: u64,
    pub authority: u64,
    pub balance: u64,
}

/// The metadata identifying a fungible asset type.
#[derive(Clone, Copy, PartialEq, Eq, Structural, Debug)]
pub struct AssetDescriptor {
    pub address: u64,
    pub is_initialized: bool,
}

/// The authorization presented to the ledger for a transfer: either a
/// conventional signature of the source account's authority, or the
/// capability of a derived authority, proven structurally by presenting the
/// seed material and bump that recompute its address.
pub enum Authority {
    Signed { signer: u64 },
    Derived { seeds: Vec<Vec<u8>>, bump: u8 },
}

impl Authority {
    /// The address this authorization stands for.
    pub open spec fn spec_address(self) -> u64 {
        match self {
            Authority::Signed { signer } => signer,
            Authority::Derived { seeds, bump } => spec_address_with_bump(
                seed_views(seeds@),
                bump,
            ),
        }
    }

    /// Resolve the authorizing address: a signature authorizes its signer;
    /// a derived capability authorizes the address its seeds recompute.
    pub fn address(&self) -> (a: u64)
        ensures
            a == self.spec_address(),
    {
        match self {
            Authority::Signed { signer } => *signer,
            Authority::Derived { seeds, bump } => address_with_bump(seeds, *bump),
        }
    }
}

/// Whether some account of `s` has the address `addr`.
pub open spec fn spec_has_account(s: Seq<AssetAccount>, addr: u64) -> bool {
    exists|i: int| 0 <= i < s.len() && s[i].address == addr
}

/// The index of the account with address `addr`.
pub open spec fn spec_account_index(s: Seq<AssetAccount>, addr: u64) -> int {
    choose|i: int| 0 <= i < s.len() && s[i].address == addr
}

/// The account with address `addr`.
pub open spec fn spec_account(s: Seq<AssetAccount>, addr: u64) -> AssetAccount {
    s[spec_account_index(s, addr)]
}

/// No two accounts share an address.
pub open spec fn spec_distinct_accounts(s: Seq<AssetAccount>) -> bool {
    forall|i: int, j: int| 0 <= i < j < s.len() ==> s[i].address != s[j].address
}

/// The total of all balances.
pub open spec fn spec_sum(s: Seq<AssetAccount>) -> int
    decreases s.len(),
{
    if s.len() == 0 {
        0
    } else {
        spec_sum(s.drop_last()) + s.last().balance
    }
}

/// A well-formed ledger: addresses identify accounts, and the total supply
/// is representable, so no transfer can overflow a destination balance.
pub open spec fn spec_ledger_wf(s: Seq<AssetAccount>) -> bool {
    &&& spec_distinct_accounts(s)
    &&& spec_sum(s) <= u64::MAX
}

pub proof fn lemma_sum_nonneg(s: Seq<AssetAccount>)
    ensures
        spec_sum(s) >= 0,
    decreases s.len(),
{
    if s.len() > 0 {
        lemma_sum_nonneg(s.drop_last());
    }
}

pub proof fn lemma_sum_elem(s: Seq<AssetAccount>, i: int)
    requires
        0 <= i < s.len(),
    ensures
        s[i].balance <= spec_sum(s),
    decreases s.len(),
{
    if i == s.len() - 1 {
        lemma_sum_nonneg(s.drop_last());
    } else {
        lemma_sum_elem(s.drop_last(), i);
    }
}

pub proof fn lemma_sum_pair(s: Seq<AssetAccount>, i: int, j: int)
    requires
        0 <= i < s.len(),
        0 <= j < s.len(),
        i != j,
    ensures
        s[i].balance + s[j].balance <= spec_sum(s),
    decreases s.len(),
{
    if j == s.len() - 1 {
        lemma_sum_elem(s.drop_last(), i);
    } else if i == s.len() - 1 {
        lemma_sum_elem(s.drop_last(), j);
    } else {
        lemma_sum_pair(s.drop_last(), i, j);
    }
}

pub proof fn lemma_sum_update(s: Seq<AssetAccount>, i: int, a: AssetAccount)
    requires
        0 <= i < s.len(),
    ensures
        spec_sum(s.update(i, a)) == spec_sum(s) - s[i].balance + a.balance,
    decreases s.len(),
{
    if i == s.len() - 1 {
        assert(s.update(i, a).drop_last() =~= s.drop_last());
    } else {
        assert(s.update(i, a).drop_last() =~= s.drop_last().update(i, a));
        lemma_sum_update(s.drop_last(), i, a);
    }
}

pub proof fn lemma_sum_push(s: Seq<AssetAccount>, a: AssetAccount)
    ensures
        spec_sum(s.push(a)) == spec_sum(s) + a.balance,
{
    assert(s.push(a).drop_last() =~= s);
}

/// In a ledger with distinct addresses, the account lookup resolves to the
/// one index that carries the address.
pub proof fn lemma_account_lookup(s: Seq<AssetAccount>, i: int)
    requires
        spec_distinct_accounts(s),
        0 <= i < s.len(),
    ensures
        spec_has_account(s, s[i].address),
        spec_account_index(s, s[i].address) == i,
        spec_account(s, s[i].address) == s[i],
{
    assert(spec_has_account(s, s[i].address));
    let k = spec_account_index(s, s[i].address);
    assert(0 <= k < s.len() && s[k].address == s[i].address);
}

/// Adding an account at a fresh address keeps every other lookup, and keeps
/// the addresses distinct.
pub proof fn lemma_account_push_lookup(s: Seq<AssetAccount>, a: AssetAccount, addr: u64)
    requires
        spec_distinct_accounts(s),
        !spec_has_account(s, a.address),
        spec_has_account(s, addr),
    ensures
        spec_distinct_accounts(s.push(a)),
        spec_has_account(s.push(a), addr),
        spec_account(s.push(a), addr) == spec_account(s, addr),
{
    let k = spec_account_index(s, addr);
    assert(0 <= k < s.len() && s[k].address == addr);
    assert(s.push(a)[k].address == addr);
    assert(spec_has_account(s.push(a), addr));
    let m = spec_account_index(s.push(a), addr);
    assert(0 <= m < s.push(a).len() && s.push(a)[m].address == addr);
    if m == s.len() {
        assert(a.address == addr);
        assert(false);
    }
    assert(m == k);
}

/// What `transfer` does: with both accounts present and of one asset, it
/// moves `amount` from `from` to `to` when the presented authority is the
/// source account's recorded authority and the balance suffices; otherwise
/// it changes nothing and reports the first failing check, in the order
/// existence, asset binding, balance, authority.
pub open spec fn spec_transfer(
    s: Seq<AssetAccount>,
    from: u64,
    to: u64,
    authority: u64,
    amount: u64,
) -> (Seq<AssetAccount>, Result<(), VaultError>) {
    if !spec_has_account(s, from) || !spec_has_account(s, to) {
        (s, Err(VaultError::ConstraintViolation))
    } else {
        let f = spec_account(s, from);
        let t = spec_account(s, to);
        if f.asset != t.asset {
            (s, Err(VaultError::ConstraintViolation))
        } else if amount > f.balance {
            (s, Err(VaultError::InsufficientBalance))
        } else if authority != f.authority {
            (s, Err(VaultError::MissingAuthorization))
        } else if from == to {
            (s, Ok(()))
        } else {
            let s1 = s.update(
                spec_account_index(s, from),
                AssetAccount { balance: (f.balance - amount) as u64, ..f },
            );
            let s2 = s1.update(
                spec_account_index(s, to),
                AssetAccount { balance: (t.balance + amount) as u64, ..t },
            );
            (s2, Ok(()))
        }
    }
}

/// The external asset ledger, specified at its interface: a set of custody
/// accounts keyed by address.
pub struct Ledger {
    pub accounts: Vec<AssetAccount>,
}

impl Ledger {
    pub open spec fn wf(self) -> bool {
        spec_ledger_wf(self.accounts@)
    }

    pub fn new() -> (r: Ledger)
        ensures
            r.wf(),
            r.accounts@ =~= Seq::<AssetAccount>::empty(),
    {
        let r = Ledger { accounts: Vec::new() };
        proof {
            assert(r.accounts@ =~= Seq::<AssetAccount>::empty());
        }
        r
    }

    /// Add a custody account. The ledger refuses an address already in use
    /// and a balance that would make the total supply unrepresentable.
    pub fn add_account(&mut self, account: AssetAccount) -> (r: bool)
        requires
            old(self).wf(),
        ensures
            final(self).wf(),
            r ==> final(self).accounts@ == old(self).accounts@.push(account),
            r ==> !spec_has_account(old(self).accounts@, account.address),
            !r ==> final(self).accounts@ == old(self).accounts@,
    {
        let n = self.accounts.len();
        let mut i: usize = 0;
        while i < n
            invariant
                self.accounts@ == old(self).accounts@,
                old(self).wf(),
                n == self.accounts.len(),
                i <= n,
                forall|k: int| 0 <= k < i ==> self.accounts@[k].address != account.address,
            decreases n - i,
        {
            if self.accounts[i].address == account.address {
                return false;
            }
            i += 1;
        }
        let total = total_balance(&self.accounts);
        proof {
            lemma_sum_nonneg(self.accounts@);
        }
        if account.balance > u64::MAX - total {
            return false;
        }
        proof {
            lemma_sum_push(self.accounts@, account);
        }
        self.accounts.push(account);
        true
    }
}

/// Find the account with the given address.
pub fn find_account(v: &Vec<AssetAccount>, addr: u64) -> (r: Option<usize>)
    ensures
        match r {
            Some(i) => i < v@.len() && v@[i as int].address == addr,
            None => !spec_has_account(v@, addr),
        },
{
    let mut i: usize = 0;
    while i < v.len()
        invariant
            i <= v.len(),
            forall|k: int| 0 <= k < i ==> v@[k].address != addr,
        decreases v.len() - i,
    {
        if v[i].address == addr {
            return Some(i);
        }
        i += 1;
    }
    None
}

/// The total of all balances, which a well-formed ledger keeps within `u64`.
pub fn total_balance(v: &Vec<AssetAccount>) -> (r: u64)
    requires
        spec_sum(v@) <= u64::MAX,
    ensures
        r == spec_sum(v@),
{
    let mut total: u64 = 0;
    let mut i: usize = 0;
    proof {
        assert(v@.take(0) =~= Seq::<AssetAccount>::empty());
    }
    while i < v.len()
        invariant
            i <= v.len(),
            spec_sum(v@) <= u64::MAX,
            total == spec_sum(v@.take(i as int)),
        decreases v.len() - i,
    {
        proof {
            assert(v@.take(i as int + 1).drop_last() =~= v@.take(i as int));
            assert(v@.take(i as int + 1).last() == v@[i as int]);
            lemma_sum_take_le(v@, i as int + 1);
            lemma_sum_nonneg(v@.take(i as int + 1));
        }
        total = total + v[i].balance;
        i += 1;
    }
    proof {
        assert(v@.take(v.len() as int) =~= v@);
    }
    total
}

/// The sum of a prefix is at most the sum of the whole.
pub proof fn lemma_sum_take_le(s: Seq<AssetAccount>, n: int)
    requires
        0 <= n <= s.len(),
    ensures
        spec_sum(s.take(n)) <= spec_sum(s),
    decreases s.len() - n,
{
    if n == s.len() {
        assert(s.take(n) =~= s);
    } else {
        lemma_sum_take_le(s, n + 1);
        assert(s.take(n + 1).drop_last() =~= s.take(n));
        assert(s.take(n + 1).last() == s[n]);
    }
}

impl Ledger {
    /// Move `amount` units from `from` to `to`, if `authority` resolves to
    /// the source account's recorded authority and the balance suffices.
    pub fn transfer(&mut self, from: u64, to: u64, authority: &Authority, amount: u64) -> (r:
        Result<(), VaultError>)
        requires
            old(self).wf(),
        ensures
            final(self).wf(),
            (final(self).accounts@, r) == spec_transfer(
                old(self).accounts@,
                from,
                to,
                authority.spec_address(),
                amount,
            ),
    {
        let ghost s = self.accounts@;
        let fi = match find_account(&self.accounts, from) {
            Some(i) => i,
            None => {
                return Err(VaultError::ConstraintViolation);
            },
        };
        let ti = match find_account(&self.accounts, to) {
            Some(i) => i,
            None => {
                return Err(VaultError::ConstraintViolation);
            },
        };
        proof {
            assert(spec_has_account(s, from));
            assert(spec_has_account(s, to));
            let k = spec_account_index(s, from);
            assert(0 <= k < s.len() && s[k].address == from);
            assert(k == fi);
            let m = spec_account_index(s, to);
            assert(0 <= m < s.len() && s[m].address == to);
            assert(m == ti);
        }
        let f = self.accounts[fi];
        let t = self.accounts[ti];
        if f.asset != t.asset {
            return Err(VaultError::ConstraintViolation);
        }
        if amount > f.balance {
            return Err(VaultError::InsufficientBalance);
        }
        let auth_address = authority.address();
        if auth_address != f.authority {
            return Err(VaultError::MissingAuthorization);
        }
        if fi == ti {
            return Ok(());
        }
        proof {
            lemma_sum_pair(s, fi as int, ti as int);
            lemma_sum_nonneg(s);
        }
        let new_f = AssetAccount { balance: f.balance - amount, ..f };
        let new_t = AssetAccount { balance: t.balance + amount, ..t };
        self.accounts.set(fi, new_f);
        self.accounts.set(ti, new_t);
        proof {
            lemma_sum_update(s, fi as int, new_f);
            lemma_sum_update(s.update(fi as int, new_f), ti as int, new_t);
        }
        Ok(())
    }
}

} // verus!
