use vstd::prelude::*;

use crate::deriver::{
    lemma_bump_injective, spec_address_with_bump, spec_canonical_bump_val, spec_derived_address,
    spec_state_seeds, spec_vault_seeds,
};
use crate::ledger::{
    lemma_account_lookup, lemma_account_push_lookup, lemma_sum_pair, spec_account,
    spec_account_index, spec_distinct_accounts, spec_has_account, spec_ledger_wf, AssetAccount,
    VaultError,
};
use crate::vault::{
    lemma_record_push_lookup, spec_deposit, spec_distinct_records, spec_has_record,
    spec_initialize, spec_operations_error, spec_record, spec_withdraw, Initialize, Operations,
    StateRecord,
};

verus! {

/// Law: uniqueness — for a given (owner, asset) pair at most one state
/// record can ever be initialized; after one `initialize` succeeds, a
/// second call with the same pair fails with `DuplicateInitialization`.
pub proof fn lemma_initialize_unique(
    accounts: Seq<AssetAccount>,
    records: Seq<StateRecord>,
    ctx: Initialize,
    amount1: u64,
    amount2: u64,
)
    requires
        spec_ledger_wf(accounts),
        spec_distinct_records(records),
        spec_initialize(accounts, records, ctx, amount1).2 is Ok,
    ensures
        ({
            let (a1, r1, _) = spec_initialize(accounts, records, ctx, amount1);
            spec_initialize(a1, r1, ctx, amount2).2 == Err::<(), VaultError>(
                VaultError::DuplicateInitialization,
            )
        }),
{
    let (a1, r1, _) = spec_initialize(accounts, records, ctx, amount1);
    let state_addr = spec_derived_address(spec_state_seeds(ctx.user, ctx.mint.address));
    let vault_auth = spec_derived_address(spec_vault_seeds(state_addr));
    let holding = spec_derived_address(
        crate::deriver::spec_holding_seeds(vault_auth, ctx.mint.address),
    );
    if spec_has_account(accounts, holding) {
        assert(a1 == accounts);
    } else {
        lemma_account_push_lookup(
            accounts,
            AssetAccount {
                address: holding,
                asset: ctx.mint.address,
                authority: vault_auth,
                balance: 0,
            },
            ctx.owner_token_account,
        );
    }
    assert(r1[records.len() as int].address == state_addr);
    assert(spec_has_record(r1, state_addr));
}

/// Law: conservation — a successful deposit of `amount` decreases the
/// owner account's balance by exactly `amount`, increases the holding
/// account's balance by exactly `amount`, and leaves every other account
/// unchanged; the record store is untouched by definition of
/// `spec_deposit`. The two custody accounts must be distinct accounts.
pub proof fn lemma_deposit_conservation(
    accounts: Seq<AssetAccount>,
    records: Seq<StateRecord>,
    ctx: Operations,
    amount: u64,
)
    requires
        spec_ledger_wf(accounts),
        ctx.owner_token_account != ctx.vault_token_account,
        spec_deposit(accounts, records, ctx, amount).1 is Ok,
    ensures
        ({
            let (a1, _) = spec_deposit(accounts, records, ctx, amount);
            &&& a1.len() == accounts.len()
            &&& spec_account(a1, ctx.owner_token_account).balance == spec_account(
                accounts,
                ctx.owner_token_account,
            ).balance - amount
            &&& spec_account(a1, ctx.vault_token_account).balance == spec_account(
                accounts,
                ctx.vault_token_account,
            ).balance + amount
            &&& forall|i: int|
                0 <= i < accounts.len() && accounts[i].address != ctx.owner_token_account
                    && accounts[i].address != ctx.vault_token_account ==> a1[i] == accounts[i]
        }),
{
    let from = ctx.owner_token_account;
    let to = ctx.vault_token_account;
    let (a1, _) = spec_deposit(accounts, records, ctx, amount);
    let fi = spec_account_index(accounts, from);
    let ti = spec_account_index(accounts, to);
    assert(0 <= fi < accounts.len() && accounts[fi].address == from);
    assert(0 <= ti < accounts.len() && accounts[ti].address == to);
    assert(fi != ti);
    let f = accounts[fi];
    let t = accounts[ti];
    lemma_sum_pair(accounts, fi, ti);
    assert(forall|i: int| 0 <= i < a1.len() ==> a1[i].address == accounts[i].address);
    assert(spec_distinct_accounts(a1));
    lemma_account_lookup(a1, fi);
    lemma_account_lookup(a1, ti);
}

/// Law: authorization closure — a withdrawal succeeds only when the
/// derived authority recomputed from the stored seeds and bump is exactly
/// the holding account's recorded authority.
pub proof fn lemma_withdraw_authorization(
    accounts: Seq<AssetAccount>,
    records: Seq<StateRecord>,
    ctx: Operations,
    amount: u64,
)
    requires
        spec_withdraw(accounts, records, ctx, amount).1 is Ok,
    ensures
        spec_address_with_bump(
            spec_vault_seeds(ctx.state),
            spec_record(records, ctx.state).state.vault_bump,
        ) == spec_account(accounts, ctx.vault_token_account).authority,
{
}

/// Law: authorization closure, negative side — with every declared binding
/// valid and the balance sufficient, a state record whose stored bump is
/// not the canonical one makes `withdraw` fail with `MissingAuthorization`
/// and leaves every balance unchanged.
pub proof fn lemma_withdraw_bump_mismatch(
    accounts: Seq<AssetAccount>,
    records: Seq<StateRecord>,
    ctx: Operations,
    amount: u64,
)
    requires
        spec_operations_error(accounts, records, ctx) is None,
        spec_record(records, ctx.state).state.vault_bump != spec_canonical_bump_val(
            spec_vault_seeds(ctx.state),
        ),
        amount <= spec_account(accounts, ctx.vault_token_account).balance,
    ensures
        spec_withdraw(accounts, records, ctx, amount) == (
            accounts,
            Err::<(), VaultError>(VaultError::MissingAuthorization),
        ),
{
    lemma_bump_injective(
        spec_vault_seeds(ctx.state),
        spec_record(records, ctx.state).state.vault_bump,
        spec_canonical_bump_val(spec_vault_seeds(ctx.state)),
    );
}

/// Law: balance guard — with every declared binding valid, a withdrawal of
/// more than the holding account's balance fails with
/// `InsufficientBalance` and leaves every balance unchanged.
pub proof fn lemma_withdraw_balance_guard(
    accounts: Seq<AssetAccount>,
    records: Seq<StateRecord>,
    ctx: Operations,
    amount: u64,
)
    requires
        spec_operations_error(accounts, records, ctx) is None,
        amount > spec_account(accounts, ctx.vault_token_account).balance,
    ensures
        spec_withdraw(accounts, records, ctx, amount) == (
            accounts,
            Err::<(), VaultError>(VaultError::InsufficientBalance),
        ),
{
}

/// Law: round trip — from any well-formed chain that passes the operation
/// validation pass with a canonically stored bump, depositing `amount` and
/// then withdrawing the same `amount` both succeed and restore every
/// account, owner's and vault's included, to its prior balance. The two
/// custody accounts must be distinct accounts.
pub proof fn lemma_round_trip(
    accounts: Seq<AssetAccount>,
    records: Seq<StateRecord>,
    ctx: Operations,
    amount: u64,
)
    requires
        spec_ledger_wf(accounts),
        spec_operations_error(accounts, records, ctx) is None,
        spec_record(records, ctx.state).state.vault_bump == spec_canonical_bump_val(
            spec_vault_seeds(ctx.state),
        ),
        amount <= spec_account(accounts, ctx.owner_token_account).balance,
        ctx.owner_token_account != ctx.vault_token_account,
    ensures
        ({
            let (a1, r1) = spec_deposit(accounts, records, ctx, amount);
            let (a2, r2) = spec_withdraw(a1, records, ctx, amount);
            &&& r1 == Ok::<(), VaultError>(())
            &&& r2 == Ok::<(), VaultError>(())
            &&& a2 =~= accounts
        }),
{
    let from = ctx.owner_token_account;
    let to = ctx.vault_token_account;
    let fi = spec_account_index(accounts, from);
    let ti = spec_account_index(accounts, to);
    assert(0 <= fi < accounts.len() && accounts[fi].address == from);
    assert(0 <= ti < accounts.len() && accounts[ti].address == to);
    assert(fi != ti);
    let f = accounts[fi];
    let t = accounts[ti];
    lemma_sum_pair(accounts, fi, ti);
    let (a1, r1) = spec_deposit(accounts, records, ctx, amount);
    let f1 = AssetAccount { balance: (f.balance - amount) as u64, ..f };
    let t1 = AssetAccount { balance: (t.balance + amount) as u64, ..t };
    assert(a1 == accounts.update(fi, f1).update(ti, t1));
    assert(forall|i: int| 0 <= i < a1.len() ==> a1[i].address == accounts[i].address);
    assert(spec_distinct_accounts(a1));
    lemma_account_lookup(a1, fi);
    lemma_account_lookup(a1, ti);
    assert(spec_account(a1, from) == f1);
    assert(spec_account(a1, to) == t1);
    assert(spec_operations_error(a1, records, ctx) is None);
    let (a2, r2) = spec_withdraw(a1, records, ctx, amount);
    assert(spec_address_with_bump(
        spec_vault_seeds(ctx.state),
        spec_record(records, ctx.state).state.vault_bump,
    ) == spec_derived_address(spec_vault_seeds(ctx.state)));
    assert(r2 == Ok::<(), VaultError>(()));
    let f2 = AssetAccount { balance: (f1.balance + amount) as u64, ..f1 };
    let t2 = AssetAccount { balance: (t1.balance - amount) as u64, ..t1 };
    assert(a2 == a1.update(ti, t2).update(fi, f2));
    assert(f2 == f);
    assert(t2 == t);
    assert(forall|i: int| 0 <= i < a2.len() ==> a2[i] == accounts[i]);
    assert(a2 =~= accounts);
}

/// Law: a successful `initialize` leaves the chain ready for deposits and
/// withdrawals — the same account bindings pass the operation validation
/// pass, and the new record stores the canonical bumps of both
/// derivations.
pub proof fn lemma_initialize_prepares_operations(
    accounts: Seq<AssetAccount>,
    records: Seq<StateRecord>,
    ctx: Initialize,
    amount: u64,
)
    requires
        spec_ledger_wf(accounts),
        spec_distinct_records(records),
        spec_initialize(accounts, records, ctx, amount).2 is Ok,
    ensures
        ({
            let (a1, r1, _) = spec_initialize(accounts, records, ctx, amount);
            &&& spec_operations_error(a1, r1, ctx.spec_as_operations()) is None
            &&& spec_has_record(r1, ctx.state)
            &&& spec_record(r1, ctx.state).state.state_bump == spec_canonical_bump_val(
                spec_state_seeds(ctx.user, ctx.mint.address),
            )
            &&& spec_record(r1, ctx.state).state.vault_bump == spec_canonical_bump_val(
                spec_vault_seeds(ctx.state),
            )
            &&& spec_record(r1, ctx.state).state.amount == amount
        }),
{
    let (a1, r1, _) = spec_initialize(accounts, records, ctx, amount);
    let sseeds = spec_state_seeds(ctx.user, ctx.mint.address);
    let state_addr = spec_derived_address(sseeds);
    let vault_auth = spec_derived_address(spec_vault_seeds(state_addr));
    let holding = spec_derived_address(
        crate::deriver::spec_holding_seeds(vault_auth, ctx.mint.address),
    );
    let record = StateRecord {
        address: state_addr,
        state: crate::vault::VaultState {
            amount,
            vault_bump: spec_canonical_bump_val(spec_vault_seeds(state_addr)),
            state_bump: spec_canonical_bump_val(sseeds),
        },
    };
    if spec_has_account(accounts, holding) {
        assert(a1 == accounts);
    } else {
        lemma_account_push_lookup(
            accounts,
            AssetAccount {
                address: holding,
                asset: ctx.mint.address,
                authority: vault_auth,
                balance: 0,
            },
            ctx.owner_token_account,
        );
        let created = AssetAccount {
            address: holding,
            asset: ctx.mint.address,
            authority: vault_auth,
            balance: 0,
        };
        lemma_account_lookup(accounts.push(created), accounts.len() as int);
        assert(spec_account(a1, holding) == created);
    }
    lemma_record_push_lookup(records, record);
    assert(spec_record(r1, ctx.state) == record);
}

} // verus!
