use vstd::prelude::*;

use crate::deriver::{
    address_with_bump, derive_address, holding_seeds, lemma_le_bytes_value,
    lemma_le_value_bytes, spec_address_with_bump, spec_canonical_bump_val, spec_derived_address,
    spec_holding_seeds, spec_le_bytes, spec_le_value, spec_state_seeds, spec_vault_seeds,
    state_seeds, vault_seeds, le_bytes,
};
use crate::ledger::{
    find_account, lemma_sum_push, spec_account, spec_account_index, spec_has_account,
    spec_ledger_wf, spec_sum, spec_transfer, AssetAccount, AssetDescriptor, Authority, Ledger,
    VaultError,
};

verus! {

/// Bytes of a persisted state record: an 8-byte storage-engine header
/// followed by the 10-byte payload (`amount`, `vault_bump`, `state_bump`).
pub const STATE_RECORD_SPACE: u64 = 18;

/// The persisted vault state record, one per (owner, asset) pair: the
/// nominal amount recorded at creation time and the two canonical bumps
/// needed to re-derive the vault's addresses. The record is written once by
/// `initialize` and never mutated afterwards; in particular `amount` does
/// not track the balance after later deposits and withdrawals.
#[derive(Clone, Copy, PartialEq, Eq, Structural, Debug)]
pub struct VaultState {
    pub amount: u64,
    pub vault_bump: u8,
    pub state_bump: u8,
}

impl VaultState {
    /// The persisted payload layout: `amount` as 8 little-endian bytes,
    /// then `vault_bump`, then `state_bump`.
    pub open spec fn spec_encode(self) -> Seq<u8> {
        spec_le_bytes(self.amount).push(self.vault_bump).push(self.state_bump)
    }

    pub fn encode(&self) -> (r: Vec<u8>)
        ensures
            r@ == self.spec_encode(),
            r@.len() == 10,
    {
        let mut r = le_bytes(self.amount);
        r.push(self.vault_bump);
        r.push(self.state_bump);
        r
    }

    /// Read a record back from its 10-byte payload; any other length is
    /// not a record payload.
    pub fn decode(bytes: &Vec<u8>) -> (r: Option<VaultState>)
        ensures
            bytes@.len() == 10 ==> r == Some(spec_decode(bytes@)),
            bytes@.len() != 10 ==> r is None,
    {
        if bytes.len() != 10 {
            return None;
        }
        let v7 = bytes[7] as u64;
        let v6 = (bytes[6] as u64) + 256 * v7;
        let v5 = (bytes[5] as u64) + 256 * v6;
        let v4 = (bytes[4] as u64) + 256 * v5;
        let v3 = (bytes[3] as u64) + 256 * v4;
        let v2 = (bytes[2] as u64) + 256 * v3;
        let v1 = (bytes[1] as u64) + 256 * v2;
        let amount = (bytes[0] as u64) + 256 * v1;
        proof {
            let p = bytes@.take(8);
            assert(p[0] == bytes@[0] && p[1] == bytes@[1] && p[2] == bytes@[2] && p[3]
                == bytes@[3] && p[4] == bytes@[4] && p[5] == bytes@[5] && p[6] == bytes@[6] && p[7]
                == bytes@[7]);
            assert(amount == spec_le_value(p));
        }
        Some(VaultState { amount, vault_bump: bytes[8], state_bump: bytes[9] })
    }
}

/// The record held in a 10-byte payload: the amount from the first 8
/// little-endian bytes, then the two bumps.
pub open spec fn spec_decode(s: Seq<u8>) -> VaultState
    recommends
        s.len() == 10,
{
    VaultState {
        amount: spec_le_value(s.take(8)) as u64,
        vault_bump: s[8],
        state_bump: s[9],
    }
}

/// Law: round trip — decoding an encoded record yields the record.
pub proof fn lemma_encode_decode(st: VaultState)
    ensures
        spec_decode(st.spec_encode()) == st,
{
    lemma_le_bytes_value(st.amount);
    assert(st.spec_encode().take(8) =~= spec_le_bytes(st.amount));
}

/// Law: round trip — encoding a decoded payload yields the payload.
pub proof fn lemma_decode_encode(s: Seq<u8>)
    requires
        s.len() == 10,
    ensures
        spec_decode(s).spec_encode() == s,
{
    lemma_le_value_bytes(s.take(8));
    assert(spec_decode(s).spec_encode() =~= s);
}

/// A state record persisted at its derived address.
#[derive(Clone, Copy, PartialEq, Eq, Structural, Debug)]
pub struct StateRecord {
    pub address: u64,
    pub state: VaultState,
}

/// Whether some record of `s` sits at the address `addr`.
pub open spec fn spec_has_record(s: Seq<StateRecord>, addr: u64) -> bool {
    exists|i: int| 0 <= i < s.len() && s[i].address == addr
}

/// The index of the record at address `addr`.
pub open spec fn spec_record_index(s: Seq<StateRecord>, addr: u64) -> int {
    choose|i: int| 0 <= i < s.len() && s[i].address == addr
}

/// The record at address `addr`.
pub open spec fn spec_record(s: Seq<StateRecord>, addr: u64) -> StateRecord {
    s[spec_record_index(s, addr)]
}

/// No two records share an address.
pub open spec fn spec_distinct_records(s: Seq<StateRecord>) -> bool {
    forall|i: int, j: int| 0 <= i < j < s.len() ==> s[i].address != s[j].address
}

/// Allocating a record at a fresh address keeps the addresses distinct, and
/// the new address then resolves to the new record.
pub proof fn lemma_record_push_lookup(s: Seq<StateRecord>, r: StateRecord)
    requires
        spec_distinct_records(s),
        !spec_has_record(s, r.address),
    ensures
        spec_distinct_records(s.push(r)),
        spec_has_record(s.push(r), r.address),
        spec_record(s.push(r), r.address) == r,
{
    assert(s.push(r)[s.len() as int] == r);
    assert(spec_has_record(s.push(r), r.address));
    let m = spec_record_index(s.push(r), r.address);
    assert(0 <= m < s.push(r).len() && s.push(r)[m].address == r.address);
    if m < s.len() {
        assert(s[m].address == r.address);
        assert(false);
    }
}

/// Find the record at the given address.
pub fn find_record(v: &Vec<StateRecord>, addr: u64) -> (r: Option<usize>)
    ensures
        match r {
            Some(i) => i < v@.len() && v@[i as int].address == addr,
            None => !spec_has_record(v@, addr),
        },
{
    let mut i: usize = 0;
    while i < v.len()
        invariant
            i <= v.len(),
            forall|k: int| 0 <= k < i ==> v@[k].address != addr,
        decreases v.len() - i,
    {
        if v[i].address == addr {
            return Some(i);
        }
        i += 1;
    }
    None
}

/// The whole persisted world an operation acts on: the external asset
/// ledger and the store of vault state records.
pub struct Chain {
    pub ledger: Ledger,
    pub records: Vec<StateRecord>,
}

impl Chain {
    pub open spec fn wf(self) -> bool {
        self.ledger.wf() && spec_distinct_records(self.records@)
    }

    pub fn new() -> (r: Chain)
        ensures
            r.wf(),
            r.ledger.accounts@ =~= Seq::<AssetAccount>::empty(),
            r.records@ =~= Seq::<StateRecord>::empty(),
    {
        let r = Chain { ledger: Ledger::new(), records: Vec::new() };
        proof {
            assert(r.records@ =~= Seq::<StateRecord>::empty());
        }
        r
    }
}

/// The declared accounts of the initialize operation, resolved to plain
/// values: the signing owner, the asset descriptor, and the addresses of
/// the owner's custody account, the state record, the derived vault
/// authority and the vault's holding account.
#[derive(Clone, Copy, PartialEq, Eq, Structural, Debug)]
pub struct Initialize {
    pub user: u64,
    pub user_signed: bool,
    pub mint: AssetDescriptor,
    pub owner_token_account: u64,
    pub state: u64,
    pub vault_authority: u64,
    pub vault_token_account: u64,
}

/// The declared accounts of the deposit and withdraw operations; the same
/// bindings as `Initialize`, re-validated on every call.
#[derive(Clone, Copy, PartialEq, Eq, Structural, Debug)]
pub struct Operations {
    pub user: u64,
    pub user_signed: bool,
    pub mint: AssetDescriptor,
    pub owner_token_account: u64,
    pub state: u64,
    pub vault_authority: u64,
    pub vault_token_account: u64,
}

/// What `initialize` does: after the declarative validation pass it
/// allocates the state record at its canonically derived address — failing
/// closed if that address is occupied — provisions the vault's holding
/// account under the derived vault authority if it does not exist yet, and
/// writes `amount` and the two canonical bumps into the new record. No
/// asset moves. On any failure nothing changes.
pub open spec fn spec_initialize(
    accounts: Seq<AssetAccount>,
    records: Seq<StateRecord>,
    ctx: Initialize,
    amount: u64,
) -> (Seq<AssetAccount>, Seq<StateRecord>, Result<(), VaultError>) {
    let sseeds = spec_state_seeds(ctx.user, ctx.mint.address);
    let state_addr = spec_derived_address(sseeds);
    let state_bump = spec_canonical_bump_val(sseeds);
    let vseeds = spec_vault_seeds(state_addr);
    let vault_auth = spec_derived_address(vseeds);
    let vault_bump = spec_canonical_bump_val(vseeds);
    let holding = spec_derived_address(spec_holding_seeds(vault_auth, ctx.mint.address));
    if !ctx.user_signed {
        (accounts, records, Err(VaultError::MissingAuthorization))
    } else if !ctx.mint.is_initialized {
        (accounts, records, Err(VaultError::ConstraintViolation))
    } else if !spec_has_account(accounts, ctx.owner_token_account) {
        (accounts, records, Err(VaultError::ConstraintViolation))
    } else if spec_account(accounts, ctx.owner_token_account).asset != ctx.mint.address
        || spec_account(accounts, ctx.owner_token_account).authority != ctx.user {
        (accounts, records, Err(VaultError::ConstraintViolation))
    } else if ctx.state != state_addr {
        (accounts, records, Err(VaultError::ConstraintViolation))
    } else if spec_has_record(records, state_addr) {
        (accounts, records, Err(VaultError::DuplicateInitialization))
    } else if ctx.vault_authority != vault_auth {
        (accounts, records, Err(VaultError::ConstraintViolation))
    } else if ctx.vault_token_account != holding {
        (accounts, records, Err(VaultError::ConstraintViolation))
    } else if spec_has_account(accounts, holding) && (spec_account(accounts, holding).asset
        != ctx.mint.address || spec_account(accounts, holding).authority != vault_auth) {
        (accounts, records, Err(VaultError::ConstraintViolation))
    } else {
        let created = AssetAccount {
            address: holding,
            asset: ctx.mint.address,
            authority: vault_auth,
            balance: 0,
        };
        let accounts1 = if spec_has_account(accounts, holding) {
            accounts
        } else {
            accounts.push(created)
        };
        let record = StateRecord {
            address: state_addr,
            state: VaultState { amount, vault_bump, state_bump },
        };
        (accounts1, records.push(record), Ok(()))
    }
}

/// The declarative validation pass shared by deposit and withdraw: the
/// first failing binding, or `None` when every declared constraint holds.
/// The state record is re-checked against a re-derivation with its stored
/// bump, which detects a corrupted or foreign record.
pub open spec fn spec_operations_error(
    accounts: Seq<AssetAccount>,
    records: Seq<StateRecord>,
    ctx: Operations,
) -> Option<VaultError> {
    let vseeds = spec_vault_seeds(ctx.state);
    let vault_auth = spec_derived_address(vseeds);
    let holding = spec_derived_address(spec_holding_seeds(vault_auth, ctx.mint.address));
    if !ctx.user_signed {
        Some(VaultError::MissingAuthorization)
    } else if !ctx.mint.is_initialized {
        Some(VaultError::ConstraintViolation)
    } else if !spec_has_account(accounts, ctx.owner_token_account) {
        Some(VaultError::ConstraintViolation)
    } else if spec_account(accounts, ctx.owner_token_account).asset != ctx.mint.address
        || spec_account(accounts, ctx.owner_token_account).authority != ctx.user {
        Some(VaultError::ConstraintViolation)
    } else if !spec_has_record(records, ctx.state) {
        Some(VaultError::ConstraintViolation)
    } else if spec_address_with_bump(
        spec_state_seeds(ctx.user, ctx.mint.address),
        spec_record(records, ctx.state).state.state_bump,
    ) != ctx.state {
        Some(VaultError::ConstraintViolation)
    } else if ctx.vault_authority != vault_auth {
        Some(VaultError::ConstraintViolation)
    } else if ctx.vault_token_account != holding {
        Some(VaultError::ConstraintViolation)
    } else if !spec_has_account(accounts, holding) {
        Some(VaultError::ConstraintViolation)
    } else if spec_account(accounts, holding).asset != ctx.mint.address || spec_account(
        accounts,
        holding,
    ).authority != vault_auth {
        Some(VaultError::ConstraintViolation)
    } else {
        None
    }
}

/// What `deposit` does: after the validation pass, the ledger moves
/// `amount` from the owner's account into the holding account, authorized
/// directly by the owner's signature. The record store never changes.
pub open spec fn spec_deposit(
    accounts: Seq<AssetAccount>,
    records: Seq<StateRecord>,
    ctx: Operations,
    amount: u64,
) -> (Seq<AssetAccount>, Result<(), VaultError>) {
    match spec_operations_error(accounts, records, ctx) {
        Some(e) => (accounts, Err(e)),
        None => spec_transfer(
            accounts,
            ctx.owner_token_account,
            ctx.vault_token_account,
            ctx.user,
            amount,
        ),
    }
}

/// What `withdraw` does: after the validation pass, the derived authority's
/// seeds are recomputed from the state record's address and stored
/// `vault_bump`, and that capability authorizes the ledger to move `amount`
/// from the holding account back to the owner's account. The record store
/// never changes.
pub open spec fn spec_withdraw(
    accounts: Seq<AssetAccount>,
    records: Seq<StateRecord>,
    ctx: Operations,
    amount: u64,
) -> (Seq<AssetAccount>, Result<(), VaultError>) {
    match spec_operations_error(accounts, records, ctx) {
        Some(e) => (accounts, Err(e)),
        None => spec_transfer(
            accounts,
            ctx.vault_token_account,
            ctx.owner_token_account,
            spec_address_with_bump(
                spec_vault_seeds(ctx.state),
                spec_record(records, ctx.state).state.vault_bump,
            ),
            amount,
        ),
    }
}

impl Initialize {
    /// The same account bindings, declared for the deposit and withdraw
    /// operations.
    pub open spec fn spec_as_operations(self) -> Operations {
        Operations {
            user: self.user,
            user_signed: self.user_signed,
            mint: self.mint,
            owner_token_account: self.owner_token_account,
            state: self.state,
            vault_authority: self.vault_authority,
            vault_token_account: self.vault_token_account,
        }
    }

    /// Provision the state record and the vault's holding account.
    pub fn initialize(&self, chain: &mut Chain, amount: u64) -> (r: Result<(), VaultError>)
        requires
            old(chain).wf(),
        ensures
            final(chain).wf(),
            ({
                let (a, rs, res) = spec_initialize(
                    old(chain).ledger.accounts@,
                    old(chain).records@,
                    *self,
                    amount,
                );
                final(chain).ledger.accounts@ == a && final(chain).records@ == rs && r == res
            }),
    {
        let ghost s0 = chain.ledger.accounts@;
        let ghost r0 = chain.records@;
        if !self.user_signed {
            return Err(VaultError::MissingAuthorization);
        }
        if !self.mint.is_initialized {
            return Err(VaultError::ConstraintViolation);
        }
        let oi = match find_account(&chain.ledger.accounts, self.owner_token_account) {
            Some(i) => i,
            None => {
                return Err(VaultError::ConstraintViolation);
            },
        };
        proof {
            assert(spec_has_account(s0, self.owner_token_account));
            let k = spec_account_index(s0, self.owner_token_account);
            assert(0 <= k < s0.len() && s0[k].address == self.owner_token_account);
            assert(k == oi);
        }
        let owner_acct = chain.ledger.accounts[oi];
        if owner_acct.asset != self.mint.address || owner_acct.authority != self.user {
            return Err(VaultError::ConstraintViolation);
        }
        let sseeds = state_seeds(self.user, self.mint.address);
        let (state_addr, state_bump) = derive_address(&sseeds);
        if self.state != state_addr {
            return Err(VaultError::ConstraintViolation);
        }
        match find_record(&chain.records, state_addr) {
            Some(_) => {
                return Err(VaultError::DuplicateInitialization);
            },
            None => {},
        }
        let vseeds = vault_seeds(state_addr);
        let (vault_auth, vault_bump) = derive_address(&vseeds);
        if self.vault_authority != vault_auth {
            return Err(VaultError::ConstraintViolation);
        }
        let hseeds = holding_seeds(vault_auth, self.mint.address);
        let (holding_addr, _holding_bump) = derive_address(&hseeds);
        if self.vault_token_account != holding_addr {
            return Err(VaultError::ConstraintViolation);
        }
        match find_account(&chain.ledger.accounts, holding_addr) {
            Some(hi) => {
                proof {
                    assert(spec_has_account(s0, holding_addr));
                    let k = spec_account_index(s0, holding_addr);
                    assert(0 <= k < s0.len() && s0[k].address == holding_addr);
                    assert(k == hi);
                }
                let h = chain.ledger.accounts[hi];
                if h.asset != self.mint.address || h.authority != vault_auth {
                    return Err(VaultError::ConstraintViolation);
                }
            },
            None => {
                let created = AssetAccount {
                    address: holding_addr,
                    asset: self.mint.address,
                    authority: vault_auth,
                    balance: 0,
                };
                proof {
                    lemma_sum_push(s0, created);
                }
                chain.ledger.accounts.push(created);
            },
        }
        let record = StateRecord {
            address: state_addr,
            state: VaultState { amount, vault_bump, state_bump },
        };
        chain.records.push(record);
        Ok(())
    }
}

/// Run the declarative validation pass of deposit and withdraw against the
/// chain, returning the validated state record's contents.
fn check_operations(chain: &Chain, ctx: &Operations) -> (r: Result<VaultState, VaultError>)
    requires
        chain.wf(),
    ensures
        match r {
            Ok(st) => spec_operations_error(chain.ledger.accounts@, chain.records@, *ctx)
                is None && spec_has_record(chain.records@, ctx.state) && st == spec_record(
                chain.records@,
                ctx.state,
            ).state,
            Err(e) => spec_operations_error(chain.ledger.accounts@, chain.records@, *ctx)
                == Some(e),
        },
{
    let ghost s0 = chain.ledger.accounts@;
    let ghost r0 = chain.records@;
    if !ctx.user_signed {
        return Err(VaultError::MissingAuthorization);
    }
    if !ctx.mint.is_initialized {
        return Err(VaultError::ConstraintViolation);
    }
    let oi = match find_account(&chain.ledger.accounts, ctx.owner_token_account) {
        Some(i) => i,
        None => {
            return Err(VaultError::ConstraintViolation);
        },
    };
    proof {
        assert(spec_has_account(s0, ctx.owner_token_account));
        let k = spec_account_index(s0, ctx.owner_token_account);
        assert(0 <= k < s0.len() && s0[k].address == ctx.owner_token_account);
        assert(k == oi);
    }
    let owner_acct = chain.ledger.accounts[oi];
    if owner_acct.asset != ctx.mint.address || owner_acct.authority != ctx.user {
        return Err(VaultError::ConstraintViolation);
    }
    let ri = match find_record(&chain.records, ctx.state) {
        Some(i) => i,
        None => {
            return Err(VaultError::ConstraintViolation);
        },
    };
    proof {
        assert(spec_has_record(r0, ctx.state));
        let k = spec_record_index(r0, ctx.state);
        assert(0 <= k < r0.len() && r0[k].address == ctx.state);
        assert(k == ri);
    }
    let st = chain.records[ri].state;
    let sseeds = state_seeds(ctx.user, ctx.mint.address);
    if address_with_bump(&sseeds, st.state_bump) != ctx.state {
        return Err(VaultError::ConstraintViolation);
    }
    let vseeds = vault_seeds(ctx.state);
    let (vault_auth, _vault_bump) = derive_address(&vseeds);
    if ctx.vault_authority != vault_auth {
        return Err(VaultError::ConstraintViolation);
    }
    let hseeds = holding_seeds(vault_auth, ctx.mint.address);
    let (holding_addr, _holding_bump) = derive_address(&hseeds);
    if ctx.vault_token_account != holding_addr {
        return Err(VaultError::ConstraintViolation);
    }
    let hi = match find_account(&chain.ledger.accounts, holding_addr) {
        Some(i) => i,
        None => {
            return Err(VaultError::ConstraintViolation);
        },
    };
    proof {
        assert(spec_has_account(s0, holding_addr));
        let k = spec_account_index(s0, holding_addr);
        assert(0 <= k < s0.len() && s0[k].address == holding_addr);
        assert(k == hi);
    }
    let h = chain.ledger.accounts[hi];
    if h.asset != ctx.mint.address || h.authority != vault_auth {
        return Err(VaultError::ConstraintViolation);
    }
    Ok(st)
}

impl Operations {
    /// Move `amount` from the owner's custody account into the vault's
    /// holding account, authorized by the owner's signature.
    pub fn deposit(&self, chain: &mut Chain, amount: u64) -> (r: Result<(), VaultError>)
        requires
            old(chain).wf(),
        ensures
            final(chain).wf(),
            final(chain).records@ == old(chain).records@,
            ({
                let (a, res) = spec_deposit(
                    old(chain).ledger.accounts@,
                    old(chain).records@,
                    *self,
                    amount,
                );
                final(chain).ledger.accounts@ == a && r == res
            }),
    {
        match check_operations(chain, self) {
            Err(e) => Err(e),
            Ok(_st) => chain.ledger.transfer(
                self.owner_token_account,
                self.vault_token_account,
                &Authority::Signed { signer: self.user },
                amount,
            ),
        }
    }

    /// Move `amount` from the vault's holding account back to the owner's
    /// custody account, authorized by the recomputed derived authority.
    pub fn withdraw(&self, chain: &mut Chain, amount: u64) -> (r: Result<(), VaultError>)
        requires
            old(chain).wf(),
        ensures
            final(chain).wf(),
            final(chain).records@ == old(chain).records@,
            ({
                let (a, res) = spec_withdraw(
                    old(chain).ledger.accounts@,
                    old(chain).records@,
                    *self,
                    amount,
                );
                final(chain).ledger.accounts@ == a && r == res
            }),
    {
        match check_operations(chain, self) {
            Err(e) => Err(e),
            Ok(st) => {
                let seeds = vault_seeds(self.state);
                let auth = Authority::Derived { seeds, bump: st.vault_bump };
                chain.ledger.transfer(
                    self.vault_token_account,
                    self.owner_token_account,
                    &auth,
                    amount,
                )
            },
        }
    }
}

/// Provision a vault for the signing owner and the given asset.
pub fn initialize(chain: &mut Chain, accounts: &Initialize, amount: u64) -> (r: Result<
    (),
    VaultError,
>)
    requires
        old(chain).wf(),
    ensures
        final(chain).wf(),
        ({
            let (a, rs, res) = spec_initialize(
                old(chain).ledger.accounts@,
                old(chain).records@,
                *accounts,
                amount,
            );
            final(chain).ledger.accounts@ == a && final(chain).records@ == rs && r == res
        }),
{
    accounts.initialize(chain, amount)
}

/// Deposit `amount` into the vault.
pub fn deposit(chain: &mut Chain, accounts: &Operations, amount: u64) -> (r: Result<
    (),
    VaultError,
>)
    requires
        old(chain).wf(),
    ensures
        final(chain).wf(),
        final(chain).records@ == old(chain).records@,
        ({
            let (a, res) = spec_deposit(
                old(chain).ledger.accounts@,
                old(chain).records@,
                *accounts,
                amount,
            );
            final(chain).ledger.accounts@ == a && r == res
        }),
{
    accounts.deposit(chain, amount)
}

/// Withdraw `amount` from the vault.
pub fn withdraw(chain: &mut Chain, accounts: &Operations, amount: u64) -> (r: Result<
    (),
    VaultError,
>)
    requires
        old(chain).wf(),
    ensures
        final(chain).wf(),
        final(chain).records@ == old(chain).records@,
        ({
            let (a, res) = spec_withdraw(
                old(chain).ledger.accounts@,
                old(chain).records@,
                *accounts,
                amount,
            );
            final(chain).ledger.accounts@ == a && r == res
        }),
{
    accounts.withdraw(chain, amount)
}

} // verus!
