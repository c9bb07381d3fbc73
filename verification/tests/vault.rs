use spl_vault1::deriver::{address_with_bump, derive_address, is_on_curve, le_bytes, state_seeds, vault_seeds};
use spl_vault1::ledger::{AssetAccount, AssetDescriptor, VaultError};
use spl_vault1::vault::{deposit, initialize, withdraw, Chain, Initialize, Operations, VaultState};

const OWNER: u64 = 11;
const MINT_ADDR: u64 = 77;
const OWNER_TOKEN: u64 = 1001;
const BYSTANDER: u64 = 2002;

fn setup(balance: u64) -> (Chain, Initialize) {
    let mut chain = Chain::new();
    assert!(chain.ledger.add_account(AssetAccount {
        address: OWNER_TOKEN,
        asset: MINT_ADDR,
        authority: OWNER,
        balance,
    }));
    assert!(chain.ledger.add_account(AssetAccount {
        address: BYSTANDER,
        asset: MINT_ADDR,
        authority: 12,
        balance: 5,
    }));
    let sseeds = state_seeds(OWNER, MINT_ADDR);
    let (state_addr, _) = derive_address(&sseeds);
    let vseeds = vault_seeds(state_addr);
    let (vault_auth, _) = derive_address(&vseeds);
    let hseeds = spl_vault1::deriver::holding_seeds(vault_auth, MINT_ADDR);
    let (holding, _) = derive_address(&hseeds);
    let ctx = Initialize {
        user: OWNER,
        user_signed: true,
        mint: AssetDescriptor { address: MINT_ADDR, is_initialized: true },
        owner_token_account: OWNER_TOKEN,
        state: state_addr,
        vault_authority: vault_auth,
        vault_token_account: holding,
    };
    (chain, ctx)
}

fn ops_of(ctx: &Initialize) -> Operations {
    Operations {
        user: ctx.user,
        user_signed: ctx.user_signed,
        mint: ctx.mint,
        owner_token_account: ctx.owner_token_account,
        state: ctx.state,
        vault_authority: ctx.vault_authority,
        vault_token_account: ctx.vault_token_account,
    }
}

fn balance_of(chain: &Chain, addr: u64) -> u64 {
    for a in chain.ledger.accounts.iter() {
        if a.address == addr {
            return a.balance;
        }
    }
    panic!("no account at that address");
}

fn record_of(chain: &Chain, addr: u64) -> VaultState {
    for r in chain.records.iter() {
        if r.address == addr {
            return r.state;
        }
    }
    panic!("no record at that address");
}

#[test]
fn derivation_is_deterministic() {
    let seeds1 = state_seeds(OWNER, MINT_ADDR);
    let seeds2 = state_seeds(OWNER, MINT_ADDR);
    assert_eq!(derive_address(&seeds1), derive_address(&seeds2));
}

#[test]
fn derived_address_is_off_curve() {
    let seeds = state_seeds(OWNER, MINT_ADDR);
    let (addr, bump) = derive_address(&seeds);
    assert!(!is_on_curve(addr));
    assert_eq!(address_with_bump(&seeds, bump), addr);
    for higher in (bump as u64 + 1)..=255 {
        assert!(is_on_curve(address_with_bump(&seeds, higher as u8)));
    }
}

#[test]
fn different_bumps_give_different_addresses() {
    let seeds = state_seeds(OWNER, MINT_ADDR);
    let (addr, bump) = derive_address(&seeds);
    let other = if bump == 0 { 1 } else { bump - 1 };
    assert_ne!(address_with_bump(&seeds, other), addr);
}

#[test]
fn le_bytes_exact() {
    assert_eq!(le_bytes(0x0102030405060708), vec![8, 7, 6, 5, 4, 3, 2, 1]);
    assert_eq!(le_bytes(0), vec![0, 0, 0, 0, 0, 0, 0, 0]);
}

#[test]
fn record_layout_exact() {
    let st = VaultState { amount: 1000, vault_bump: 254, state_bump: 255 };
    assert_eq!(st.encode(), vec![232, 3, 0, 0, 0, 0, 0, 0, 254, 255]);
}

#[test]
fn record_space_covers_header_and_payload() {
    let st = VaultState { amount: 0, vault_bump: 0, state_bump: 0 };
    assert_eq!(spl_vault1::vault::STATE_RECORD_SPACE, 8 + st.encode().len() as u64);
}

#[test]
fn record_codec_round_trip() {
    let st = VaultState { amount: u64::MAX - 17, vault_bump: 3, state_bump: 250 };
    assert_eq!(VaultState::decode(&st.encode()), Some(st));
    let payload = vec![1, 2, 3, 4, 5, 6, 7, 8, 9, 10];
    assert_eq!(VaultState::decode(&payload).unwrap().encode(), payload);
    assert_eq!(VaultState::decode(&vec![0; 9]), None);
    assert_eq!(VaultState::decode(&vec![0; 11]), None);
    assert_eq!(
        VaultState::decode(&vec![232, 3, 0, 0, 0, 0, 0, 0, 254, 255]),
        Some(VaultState { amount: 1000, vault_bump: 254, state_bump: 255 })
    );
}

#[test]
fn initialize_writes_record_and_holding_account() {
    let (mut chain, ctx) = setup(1000);
    assert_eq!(initialize(&mut chain, &ctx, 250), Ok(()));
    let st = record_of(&chain, ctx.state);
    assert_eq!(st.amount, 250);
    let sseeds = state_seeds(OWNER, MINT_ADDR);
    let (_, state_bump) = derive_address(&sseeds);
    assert_eq!(st.state_bump, state_bump);
    let vseeds = vault_seeds(ctx.state);
    let (vault_auth, vault_bump) = derive_address(&vseeds);
    assert_eq!(st.vault_bump, vault_bump);
    assert_eq!(vault_auth, ctx.vault_authority);
    assert_eq!(balance_of(&chain, ctx.vault_token_account), 0);
    assert_eq!(balance_of(&chain, OWNER_TOKEN), 1000);
}

#[test]
fn second_initialize_fails_closed() {
    let (mut chain, ctx) = setup(1000);
    assert_eq!(initialize(&mut chain, &ctx, 250), Ok(()));
    assert_eq!(
        initialize(&mut chain, &ctx, 250),
        Err(VaultError::DuplicateInitialization)
    );
    assert_eq!(chain.records.len(), 1);
}

#[test]
fn initialize_requires_signature() {
    let (mut chain, mut ctx) = setup(1000);
    ctx.user_signed = false;
    assert_eq!(
        initialize(&mut chain, &ctx, 250),
        Err(VaultError::MissingAuthorization)
    );
    assert!(chain.records.is_empty());
}

#[test]
fn initialize_rejects_uninitialized_asset() {
    let (mut chain, mut ctx) = setup(1000);
    ctx.mint.is_initialized = false;
    assert_eq!(
        initialize(&mut chain, &ctx, 250),
        Err(VaultError::ConstraintViolation)
    );
}

#[test]
fn initialize_rejects_foreign_owner_account() {
    let (mut chain, mut ctx) = setup(1000);
    ctx.owner_token_account = BYSTANDER;
    assert_eq!(
        initialize(&mut chain, &ctx, 250),
        Err(VaultError::ConstraintViolation)
    );
}

#[test]
fn initialize_rejects_wrong_state_address() {
    let (mut chain, mut ctx) = setup(1000);
    ctx.state = ctx.state.wrapping_add(1);
    assert_eq!(
        initialize(&mut chain, &ctx, 250),
        Err(VaultError::ConstraintViolation)
    );
}

#[test]
fn deposit_moves_exactly_the_amount() {
    let (mut chain, ctx) = setup(1000);
    assert_eq!(initialize(&mut chain, &ctx, 1000), Ok(()));
    let ops = ops_of(&ctx);
    assert_eq!(deposit(&mut chain, &ops, 600), Ok(()));
    assert_eq!(balance_of(&chain, OWNER_TOKEN), 400);
    assert_eq!(balance_of(&chain, ctx.vault_token_account), 600);
    assert_eq!(balance_of(&chain, BYSTANDER), 5);
}

#[test]
fn deposit_rejects_overdraw() {
    let (mut chain, ctx) = setup(1000);
    assert_eq!(initialize(&mut chain, &ctx, 1000), Ok(()));
    let ops = ops_of(&ctx);
    assert_eq!(
        deposit(&mut chain, &ops, 2000),
        Err(VaultError::InsufficientBalance)
    );
    assert_eq!(balance_of(&chain, OWNER_TOKEN), 1000);
    assert_eq!(balance_of(&chain, ctx.vault_token_account), 0);
}

#[test]
fn deposit_without_record_fails() {
    let (mut chain, ctx) = setup(1000);
    let ops = ops_of(&ctx);
    assert_eq!(
        deposit(&mut chain, &ops, 100),
        Err(VaultError::ConstraintViolation)
    );
}

#[test]
fn withdraw_requires_signature() {
    let (mut chain, ctx) = setup(1000);
    assert_eq!(initialize(&mut chain, &ctx, 1000), Ok(()));
    let mut ops = ops_of(&ctx);
    assert_eq!(deposit(&mut chain, &ops, 600), Ok(()));
    ops.user_signed = false;
    assert_eq!(
        withdraw(&mut chain, &ops, 100),
        Err(VaultError::MissingAuthorization)
    );
    assert_eq!(balance_of(&chain, ctx.vault_token_account), 600);
}

#[test]
fn deposit_then_withdraw_restores_balances() {
    let (mut chain, ctx) = setup(1000);
    assert_eq!(initialize(&mut chain, &ctx, 1000), Ok(()));
    let ops = ops_of(&ctx);
    assert_eq!(deposit(&mut chain, &ops, 777), Ok(()));
    assert_eq!(withdraw(&mut chain, &ops, 777), Ok(()));
    assert_eq!(balance_of(&chain, OWNER_TOKEN), 1000);
    assert_eq!(balance_of(&chain, ctx.vault_token_account), 0);
    assert_eq!(balance_of(&chain, BYSTANDER), 5);
}

#[test]
fn deposit_withdraw_scenario() {
    let (mut chain, ctx) = setup(1000);
    assert_eq!(initialize(&mut chain, &ctx, 1000), Ok(()));
    let ops = ops_of(&ctx);
    assert_eq!(deposit(&mut chain, &ops, 1000), Ok(()));
    assert_eq!(balance_of(&chain, OWNER_TOKEN), 0);
    assert_eq!(balance_of(&chain, ctx.vault_token_account), 1000);
    assert_eq!(withdraw(&mut chain, &ops, 400), Ok(()));
    assert_eq!(balance_of(&chain, OWNER_TOKEN), 400);
    assert_eq!(balance_of(&chain, ctx.vault_token_account), 600);
    assert_eq!(
        withdraw(&mut chain, &ops, 700),
        Err(VaultError::InsufficientBalance)
    );
    assert_eq!(balance_of(&chain, OWNER_TOKEN), 400);
    assert_eq!(balance_of(&chain, ctx.vault_token_account), 600);
}

#[test]
fn mutated_bump_blocks_withdrawal() {
    let (mut chain, ctx) = setup(1000);
    assert_eq!(initialize(&mut chain, &ctx, 1000), Ok(()));
    let ops = ops_of(&ctx);
    assert_eq!(deposit(&mut chain, &ops, 600), Ok(()));
    let i = chain
        .records
        .iter()
        .position(|r| r.address == ctx.state)
        .unwrap();
    let good = chain.records[i].state.vault_bump;
    chain.records[i].state.vault_bump = if good == 0 { 1 } else { good - 1 };
    assert_eq!(
        withdraw(&mut chain, &ops, 100),
        Err(VaultError::MissingAuthorization)
    );
    assert_eq!(balance_of(&chain, ctx.vault_token_account), 600);
    assert_eq!(balance_of(&chain, OWNER_TOKEN), 400);
    chain.records[i].state.vault_bump = good;
    assert_eq!(withdraw(&mut chain, &ops, 100), Ok(()));
}

#[test]
fn mutated_state_bump_is_detected() {
    let (mut chain, ctx) = setup(1000);
    assert_eq!(initialize(&mut chain, &ctx, 1000), Ok(()));
    let ops = ops_of(&ctx);
    let i = chain
        .records
        .iter()
        .position(|r| r.address == ctx.state)
        .unwrap();
    let good = chain.records[i].state.state_bump;
    chain.records[i].state.state_bump = if good == 0 { 1 } else { good - 1 };
    assert_eq!(
        deposit(&mut chain, &ops, 100),
        Err(VaultError::ConstraintViolation)
    );
}

#[test]
fn recorded_amount_does_not_track_balance() {
    let (mut chain, ctx) = setup(1000);
    assert_eq!(initialize(&mut chain, &ctx, 300), Ok(()));
    let ops = ops_of(&ctx);
    assert_eq!(deposit(&mut chain, &ops, 600), Ok(()));
    assert_eq!(withdraw(&mut chain, &ops, 100), Ok(()));
    assert_eq!(record_of(&chain, ctx.state).amount, 300);
    assert_eq!(balance_of(&chain, ctx.vault_token_account), 500);
}

#[test]
fn add_account_refuses_reused_address() {
    let (mut chain, _) = setup(1000);
    assert!(!chain.ledger.add_account(AssetAccount {
        address: OWNER_TOKEN,
        asset: MINT_ADDR,
        authority: 99,
        balance: 1,
    }));
}
