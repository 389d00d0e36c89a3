use neko_contracts::vault::contract::VaultContract;
use neko_contracts::vault::error::Error;
use neko_contracts::vault::harvester::{Harvester, HarvestRun, RewardAction};
use neko_contracts::vault::deposit::Deposit;
use neko_contracts::vault::nav::Nav;
use neko_contracts::vault::withdraw::Withdraw;
use neko_contracts::vault::storage::{AllowanceStorage, BalanceStorage, Storage};
use neko_contracts::vault::types::{
    HarvestLimits, VaultAllowance, VaultConfig, VaultStatus, VaultStorage, SCALAR_7,
};

fn default_config() -> VaultConfig {
    VaultConfig {
        management_fee_bps: 50,       // 0.5%
        performance_fee_bps: 1000,    // 10%
        min_liquidity_bps: 500,       // 5%
        max_protocol_bps: 9000,       // 90%
        rebalance_threshold_bps: 200, // 2%
    }
}

fn fresh_vault() -> VaultStorage {
    VaultStorage {
        status: VaultStatus::Active,
        liquid_reserve: 0,
        total_shares: 0,
        high_water_mark: SCALAR_7,
        last_fee_accrual: 0,
        config: default_config(),
    }
}

// The router stand-in: estimates and swaps at a percentage rate.
struct MockRouter {
    estimate_rate: i128,
    swap_rate: i128,
}

// What an adapter reports from `a_harvest`.
struct MockReward {
    is_deposit_token: bool,
    is_config_token: bool,
    amount: i128,
}

// Runs one harvest over active protocols the way the contract does, returning the
// harvested total, the dust events and the vault state.
fn run_harvest(
    vault: &mut VaultStorage,
    limits: Option<HarvestLimits>,
    rewards: &[MockReward],
    router: &MockRouter,
) -> Result<(i128, Vec<i128>), Error> {
    let mut run = Harvester::start(limits);
    let mut dust = Vec::new();
    for reward in rewards {
        match run.on_reward(reward.is_deposit_token, reward.is_config_token, reward.amount)? {
            RewardAction::Skip | RewardAction::Credited => {},
            RewardAction::Dust { amount } => dust.push(amount),
            RewardAction::Swap { amount } => {
                let estimate = vec![amount, amount * router.estimate_rate / 100];
                if let Some(min_out) = run.on_estimate(Some(estimate))? {
                    let out = amount * router.swap_rate / 100;
                    let swap = if out < min_out { None } else { Some(vec![amount, out]) };
                    run.on_swap(swap)?;
                }
            },
        }
    }
    let now = vault.last_fee_accrual;
    let outcome = run.finish(vault, now, &vec![])?;
    assert_eq!(outcome.event.total, run.total_harvested);
    Ok((run.total_harvested, dust))
}

fn limits(min_swap_amount: i128, max_slippage_bps: u32) -> Option<HarvestLimits> {
    Some(HarvestLimits { min_swap_amount, max_slippage_bps })
}

#[test]
fn test_harvest_zero() {
    let mut vault = fresh_vault();
    let rewards = [MockReward { is_deposit_token: true, is_config_token: false, amount: 0 }];
    let router = MockRouter { estimate_rate: 100, swap_rate: 100 };
    let (harvested, _) = run_harvest(&mut vault, None, &rewards, &router).unwrap();
    assert_eq!(harvested, 0);
    assert_eq!(vault.liquid_reserve, 0);
}

#[test]
fn test_harvest_same_token() {
    let mut vault = fresh_vault();
    let reward_amount = 50_0000000i128;
    let rewards = [MockReward { is_deposit_token: true, is_config_token: false, amount: reward_amount }];
    let router = MockRouter { estimate_rate: 100, swap_rate: 100 };
    let (harvested, _) = run_harvest(&mut vault, None, &rewards, &router).unwrap();
    assert_eq!(harvested, reward_amount);
    assert_eq!(vault.liquid_reserve, reward_amount);
}

#[test]
fn test_harvest_swap_success() {
    let mut vault = fresh_vault();
    let rewards = [MockReward { is_deposit_token: false, is_config_token: true, amount: 100_0000000i128 }];
    let router = MockRouter { estimate_rate: 90, swap_rate: 90 };
    let (harvested, _) = run_harvest(&mut vault, limits(10_0000000i128, 1000), &rewards, &router).unwrap();
    assert_eq!(harvested, 90_0000000i128);
    assert_eq!(vault.liquid_reserve, 90_0000000i128);
}

#[test]
fn test_harvest_swap_dust_skipped() {
    let mut vault = fresh_vault();
    let reward_amount = 5_0000000i128;
    let rewards = [MockReward { is_deposit_token: false, is_config_token: true, amount: reward_amount }];
    let router = MockRouter { estimate_rate: 100, swap_rate: 100 };
    let (harvested, dust) = run_harvest(&mut vault, limits(10_0000000i128, 1000), &rewards, &router).unwrap();
    assert_eq!(harvested, 0);
    assert_eq!(vault.liquid_reserve, 0);
    // the reward stays in the vault, reported as dust
    assert_eq!(dust, vec![reward_amount]);
}

#[test]
fn test_harvest_swap_slippage_rejection() {
    let mut vault = fresh_vault();
    let rewards = [MockReward { is_deposit_token: false, is_config_token: true, amount: 100_0000000i128 }];
    let router = MockRouter { estimate_rate: 100, swap_rate: 80 };
    let (harvested, _) = run_harvest(&mut vault, limits(10_0000000i128, 500), &rewards, &router).unwrap();
    assert_eq!(harvested, 0);
    assert_eq!(vault.liquid_reserve, 0);
}

#[test]
fn harvest_rejects_unconfigured_reward_token() {
    let mut vault = fresh_vault();
    let before = vault;
    let router = MockRouter { estimate_rate: 100, swap_rate: 100 };
    let no_config = [MockReward { is_deposit_token: false, is_config_token: true, amount: 10 }];
    assert_eq!(run_harvest(&mut vault, None, &no_config, &router), Err(Error::InvalidConfig));
    let other_token = [MockReward { is_deposit_token: false, is_config_token: false, amount: 10 }];
    assert_eq!(run_harvest(&mut vault, limits(1, 100), &other_token, &router), Err(Error::InvalidConfig));
    assert_eq!(vault, before);
}

#[test]
fn harvest_total_overflow_is_an_error() {
    let mut run = Harvester::start(None);
    assert_eq!(run.on_reward(true, false, i128::MAX), Ok(RewardAction::Credited));
    assert_eq!(run.on_reward(true, false, 1), Err(Error::ArithmeticError));
    assert_eq!(run.total_harvested, i128::MAX);
    assert!(Harvester::is_harvested(true));
    assert!(!Harvester::is_harvested(false));
}

#[test]
fn failed_estimate_skips_swap() {
    let run = HarvestRun { total_harvested: 0, limits: limits(1, 100) };
    assert_eq!(run.on_estimate(None), Ok(None));
    assert_eq!(run.on_estimate(Some(vec![1_000, 2_000])), Ok(Some(1_980)));
    assert_eq!(run.on_estimate(Some(vec![i128::MAX])), Err(Error::ArithmeticError));
}

#[test]
fn management_fee_accrues_as_shares() {
    let mut vault = fresh_vault();
    vault.total_shares = 1_000_0000000;
    vault.config.management_fee_bps = 100; // 1% a year
    // A full year on a NAV of 1_000 tokens (held by one protocol) at a share price of 1.0
    let now = 31_536_000u64;
    let minted = Harvester::accrue_management_fee(&mut vault, now, &vec![1_000_0000000]).unwrap();
    assert_eq!(minted, 10_0000000);
    assert_eq!(vault.total_shares, 1_010_0000000);
    assert_eq!(vault.last_fee_accrual, now);
    // accruing again at the same time mints nothing
    let again = Harvester::accrue_management_fee(&mut vault, now, &vec![5_000_0000000]).unwrap();
    assert_eq!(again, 0);
    assert_eq!(vault.total_shares, 1_010_0000000);
}

#[test]
fn management_fee_skips_zero_nav_and_propagates_errors() {
    let mut vault = fresh_vault();
    vault.total_shares = 100;
    let before = vault;
    assert_eq!(
        // the balances overflow the NAV
        Harvester::accrue_management_fee(&mut vault, 10, &vec![i128::MAX, 1]),
        Err(Error::ArithmeticError)
    );
    assert_eq!(vault, before);
    assert_eq!(Harvester::accrue_management_fee(&mut vault, 10, &vec![]), Ok(0));
    assert_eq!(vault.last_fee_accrual, 10);
    assert_eq!(vault.total_shares, 100);
}

#[test]
fn performance_fee_charged_above_high_water_mark() {
    let mut vault = fresh_vault();
    vault.total_shares = 1_000_0000000;
    // a NAV of 1_200 tokens: share price 1.2 against a high water mark of 1.0,
    // gains 200 tokens, fee 20
    let price = 12_000_000i128;
    let minted = Harvester::apply_performance_fee(&mut vault, &vec![1_200_0000000]).unwrap();
    // 20 tokens at a price of 1.2 is 16.666... shares
    assert_eq!(minted, 16_6666666);
    assert_eq!(vault.total_shares, 1_016_6666666);
    assert_eq!(vault.high_water_mark, price);
    // with the same NAV the (diluted) price is below the mark: nothing more is charged
    let again = Harvester::apply_performance_fee(&mut vault, &vec![1_200_0000000]).unwrap();
    assert_eq!(again, 0);
    // below the mark nothing is charged and the mark stays
    let lower = Harvester::apply_performance_fee(&mut vault, &vec![1_100_0000000]).unwrap();
    assert_eq!(lower, 0);
    assert_eq!(vault.high_water_mark, price);
}

#[test]
fn performance_fee_skipped_without_rate_or_supply() {
    let mut vault = fresh_vault();
    let before = vault;
    assert_eq!(Harvester::apply_performance_fee(&mut vault, &vec![i128::MAX, 1]), Ok(0));
    assert_eq!(vault, before);
}

#[test]
fn test_sep41_transfer() {
    let user1 = BalanceStorage::add(BalanceStorage::get(None), 100_0000000).unwrap();
    let user2 = BalanceStorage::get(None);
    let amount = 30_0000000i128;
    let user1 = BalanceStorage::subtract(user1, amount).unwrap();
    let user2 = BalanceStorage::add(user2, amount).unwrap();
    assert_eq!(user1, 70_0000000i128);
    assert_eq!(user2, 30_0000000i128);
}

#[test]
fn test_sep41_approve_transfer_from() {
    let mut user1 = BalanceStorage::add(0, 100_0000000).unwrap();
    let mut user2 = 0i128;
    let current_ledger = 0u32;
    let granted = VaultContract::approve(50_0000000i128, 1000u32, current_ledger).unwrap();
    assert_eq!(VaultContract::allowance(Some(granted)), 50_0000000i128);

    let spent = AllowanceStorage::subtract(granted, 30_0000000i128, current_ledger).unwrap();
    user1 = BalanceStorage::subtract(user1, 30_0000000i128).unwrap();
    user2 = BalanceStorage::add(user2, 30_0000000i128).unwrap();

    assert_eq!(user1, 70_0000000i128);
    assert_eq!(user2, 30_0000000i128);
    assert_eq!(VaultContract::allowance(Some(spent)), 20_0000000i128);
}

#[test]
fn allowance_refusals() {
    assert_eq!(VaultContract::allowance(None), 0);
    assert!(VaultContract::approve(1, 5, 6).is_none());
    assert!(VaultContract::approve(1, 0, 6).is_some());
    let a = VaultAllowance { amount: 10, live_until_ledger: 5 };
    assert_eq!(AllowanceStorage::subtract(a, 11, 1), Err(Error::InsufficientAllowance));
    assert_eq!(AllowanceStorage::subtract(a, 1, 6), Err(Error::InsufficientAllowance));
    assert_eq!(AllowanceStorage::subtract(a, 10, 5), Ok(VaultAllowance { amount: 0, live_until_ledger: 5 }));
    assert_eq!(AllowanceStorage::get(None), VaultAllowance { amount: 0, live_until_ledger: 0 });
}

#[test]
fn balance_errors() {
    assert_eq!(BalanceStorage::subtract(5, 6), Err(Error::InsufficientBalance));
    assert_eq!(BalanceStorage::add(i128::MAX, 1), Err(Error::ArithmeticError));
    assert_eq!(BalanceStorage::get(Some(42)), 42);
    assert_eq!(Storage::load(None), Err(Error::NotInitialized));
    let v = fresh_vault();
    assert_eq!(Storage::load(Some(v)), Ok(v));
}

#[test]
fn burn_lowers_supply() {
    let mut vault = fresh_vault();
    vault.total_shares = 100;
    VaultContract::burn(&mut vault, 40);
    assert_eq!(vault.total_shares, 60);
}

#[test]
fn test_add_remove_protocol() {
    let entries = vec![("POOL1", Some(5000u32))];
    let protocols = VaultContract::get_protocols(entries);
    assert_eq!(protocols.len(), 1);
    assert_eq!(protocols[0].0, "POOL1");
    let removed: Vec<(&str, Option<u32>)> = vec![];
    assert_eq!(VaultContract::get_protocols(removed).len(), 0);
}

#[test]
fn protocols_keep_order_and_skip_missing_allocations() {
    let entries = vec![("A", Some(1u32)), ("B", None), ("C", Some(3u32))];
    assert_eq!(VaultContract::get_protocols(entries), vec![("A", 1u32), ("C", 3u32)]);
}

#[test]
fn deposit_token_rewards_are_credited_in_full() {
    let mut run = Harvester::start(None);
    for amount in [5i128, -3, 0, 7] {
        run.on_reward(true, false, amount).unwrap();
    }
    assert_eq!(run.total_harvested, 12);
}

#[test]
fn nav_sums_reserve_and_active_balances() {
    assert_eq!(Nav::calculate(0, &vec![]), Ok(0));
    assert_eq!(Nav::calculate(100, &vec![20, -5, 7]), Ok(122));
    assert_eq!(Nav::calculate(i128::MAX, &vec![1, -1]), Err(Error::ArithmeticError));
    assert_eq!(Nav::calculate(i128::MAX - 1, &vec![1]), Ok(i128::MAX));
}

#[test]
fn share_price_is_nav_per_share() {
    assert_eq!(Nav::share_price(0, 0), Ok(SCALAR_7));
    assert_eq!(Nav::share_price(123, 0), Ok(SCALAR_7));
    assert_eq!(Nav::share_price(200_0000000, 100_0000000), Ok(2 * SCALAR_7));
    assert_eq!(Nav::share_price(1, 3), Ok(3_333_333));
    assert_eq!(Nav::share_price(-1, 3), Ok(-3_333_333));
    assert_eq!(Nav::share_price(i128::MAX, 1), Err(Error::ArithmeticError));
}

#[test]
fn fees_need_nav_only_when_they_can_charge() {
    let mut vault = fresh_vault();
    vault.last_fee_accrual = 100;
    assert!(!Harvester::accrual_needs_nav(&vault, 100));
    assert!(!Harvester::accrual_needs_nav(&vault, 50));
    assert!(Harvester::accrual_needs_nav(&vault, 101));
    vault.config.management_fee_bps = 0;
    assert!(!Harvester::accrual_needs_nav(&vault, 101));
    // without the NAV, accrual at the same time changes nothing whatever is passed
    let mut same = vault;
    assert_eq!(Harvester::accrue_management_fee(&mut same, 100, &vec![i128::MAX, 1]), Ok(0));
    assert_eq!(same, vault);

    let mut vault = fresh_vault();
    assert!(!Harvester::performance_needs_nav(&vault));
    vault.total_shares = 10;
    assert!(Harvester::performance_needs_nav(&vault));
    vault.config.performance_fee_bps = 0;
    assert!(!Harvester::performance_needs_nav(&vault));
    let mut same = vault;
    assert_eq!(Harvester::apply_performance_fee(&mut same, &vec![i128::MAX, 1]), Ok(0));
    assert_eq!(same, vault);
}

#[test]
fn harvest_total_is_sum_of_credits() {
    // one deposit-token reward, one swapped reward, one dust reward, one skipped
    let mut vault = fresh_vault();
    vault.liquid_reserve = 1_000;
    let rewards = [
        MockReward { is_deposit_token: true, is_config_token: false, amount: 400 },
        MockReward { is_deposit_token: false, is_config_token: true, amount: 1_000 },
        MockReward { is_deposit_token: false, is_config_token: true, amount: 5 },
        MockReward { is_deposit_token: true, is_config_token: false, amount: -9 },
    ];
    let router = MockRouter { estimate_rate: 50, swap_rate: 49 };
    let (total, dust) = run_harvest(&mut vault, limits(100, 500), &rewards, &router).unwrap();
    // 400 credited + 490 delivered by the swap; the dust and the negative reward add nothing
    assert_eq!(total, 890);
    assert_eq!(dust, vec![5]);
    assert_eq!(vault.liquid_reserve, 1_890);
}

#[test]
fn harvest_fee_uses_nav_with_credited_reserve() {
    // 100 tokens harvested into a reserve of 900, one protocol holding 1_000: the fee
    // accrues on a NAV of 2_000 tokens, at a share price of 2.0
    let mut vault = fresh_vault();
    vault.liquid_reserve = 900_0000000;
    vault.total_shares = 1_000_0000000;
    vault.config.management_fee_bps = 100;
    let mut run = Harvester::start(None);
    run.on_reward(true, false, 100_0000000).unwrap();
    let now = 31_536_000u64;
    let outcome = run.finish(&mut vault, now, &vec![1_000_0000000]).unwrap();
    // fee = 2_000 × 1% = 20 tokens, at 2.0 per share = 10 shares
    assert_eq!(outcome.fee_shares, 10_0000000);
    assert_eq!(vault.liquid_reserve, 1_000_0000000);
    assert_eq!(vault.total_shares, 1_010_0000000);
    assert_eq!(outcome.event.total, 100_0000000);
}

// A vault driven by the library's decisions: share and deposit-token balances by holder,
// and what each active protocol holds.
struct SimVault {
    storage: VaultStorage,
    shares: std::collections::HashMap<&'static str, i128>,
    tokens: std::collections::HashMap<&'static str, i128>,
    protocols: Vec<i128>,
}

impl SimVault {
    fn new() -> SimVault {
        let storage = Storage::initialize(false, default_config(), 0).unwrap();
        SimVault {
            storage,
            shares: std::collections::HashMap::new(),
            tokens: std::collections::HashMap::new(),
            protocols: vec![],
        }
    }

    fn balance(&self, who: &str) -> i128 {
        *self.shares.get(who).unwrap_or(&0)
    }

    fn deposit(&mut self, user: &'static str, amount: i128) -> Result<i128, Error> {
        let held = if Deposit::needs_nav(&self.storage) { self.protocols.clone() } else { vec![] };
        let minted = Deposit::execute(&mut self.storage, amount, &held)?;
        *self.tokens.entry(user).or_insert(0) -= amount;
        let b = BalanceStorage::add(self.balance(user), minted)?;
        self.shares.insert(user, b);
        Ok(minted)
    }

    fn withdraw(&mut self, user: &'static str, shares: i128) -> Result<i128, Error> {
        let b = BalanceStorage::subtract(self.balance(user), shares)?;
        let amount = Withdraw::execute(&mut self.storage, shares, &self.protocols)?;
        self.shares.insert(user, b);
        *self.tokens.entry(user).or_insert(0) += amount;
        Ok(amount)
    }

    fn nav(&self) -> i128 {
        Nav::calculate(self.storage.liquid_reserve, &self.protocols).unwrap()
    }
}

#[test]
fn test_initialize() {
    let vault = SimVault::new();
    assert_eq!(vault.storage.status, VaultStatus::Active);
    assert_eq!(vault.storage.total_shares, 0);
    assert_eq!(vault.storage.liquid_reserve, 0);
    assert_eq!(vault.nav(), 0);
    assert_eq!(vault.storage.high_water_mark, SCALAR_7);
}

#[test]
fn double_initialize_is_refused() {
    assert_eq!(Storage::initialize(true, default_config(), 0), Err(Error::AlreadyInitialized));
}

#[test]
fn test_deposit_first_is_one_to_one() {
    let mut vault = SimVault::new();
    // First deposit: 100 tokens → should receive 100 shares (1:1)
    let amount = 100_0000000i128;
    let shares = vault.deposit("user", amount).unwrap();

    assert_eq!(shares, amount); // 1:1 for first deposit
    assert_eq!(vault.storage.total_shares, amount);
    assert_eq!(vault.storage.liquid_reserve, amount);
    assert_eq!(vault.balance("user"), amount);
}

#[test]
fn test_deposit_share_price_proportional() {
    let mut vault = SimVault::new();
    // First deposit: 100 tokens → 100 shares
    let amount1 = 100_0000000i128;
    vault.deposit("user1", amount1).unwrap();

    // Second deposit: same amount → same shares (NAV unchanged)
    let amount2 = 100_0000000i128;
    let shares2 = vault.deposit("user2", amount2).unwrap();

    assert_eq!(shares2, amount2); // Same amount since NAV = 100 and total_shares = 100

    assert_eq!(vault.storage.total_shares, amount1 + amount2);
    assert_eq!(vault.storage.liquid_reserve, amount1 + amount2);
}

#[test]
fn deposit_after_gains_gets_fewer_shares() {
    let mut vault = SimVault::new();
    vault.deposit("user1", 100_0000000).unwrap();
    // a protocol now holds 100 more: the NAV is 200 for 100 shares, a price of 2.0
    vault.protocols = vec![100_0000000];
    assert_eq!(vault.deposit("user2", 50_0000000), Ok(25_0000000));
    assert_eq!(vault.storage.total_shares, 125_0000000);
    assert_eq!(vault.deposit("user2", 0), Err(Error::ZeroAmount));
}

#[test]
fn test_withdraw_from_liquid_reserve() {
    let mut vault = SimVault::new();
    let amount = 100_0000000i128;
    let shares = vault.deposit("user", amount).unwrap();

    // Withdraw half
    let half_shares = shares / 2;
    let received = vault.withdraw("user", half_shares).unwrap();

    assert_eq!(received, amount / 2);
    assert_eq!(vault.balance("user"), shares - half_shares);
    assert_eq!(vault.storage.liquid_reserve, amount - received);
}

#[test]
fn test_withdraw_full() {
    let mut vault = SimVault::new();
    let amount = 100_0000000i128;
    let shares = vault.deposit("user", amount).unwrap();

    let received = vault.withdraw("user", shares).unwrap();
    assert_eq!(received, amount);
    assert_eq!(vault.balance("user"), 0);
    assert_eq!(vault.storage.total_shares, 0);
}

#[test]
fn withdraw_beyond_liquid_reserve_is_refused() {
    let mut vault = SimVault::new();
    vault.deposit("user", 100_0000000).unwrap();
    // half of the NAV now sits in a protocol, the reserve holds the other half
    vault.storage.liquid_reserve = 50_0000000;
    vault.protocols = vec![50_0000000];
    assert_eq!(vault.withdraw("user", 100_0000000), Err(Error::InsufficientLiquidity));
    assert_eq!(vault.withdraw("user", 50_0000000), Ok(50_0000000));
    assert_eq!(vault.withdraw("user", 60_0000000), Err(Error::InsufficientBalance));
}

#[test]
fn test_pause_blocks_deposit_not_withdraw() {
    let mut vault = SimVault::new();
    let amount = 100_0000000i128;
    let shares = vault.deposit("user", amount).unwrap();

    // Pause the vault
    vault.storage.status = VaultStatus::Paused;
    assert_eq!(vault.storage.status, VaultStatus::Paused);

    // Withdraw should still work
    let received = vault.withdraw("user", shares).unwrap();
    assert_eq!(received, amount);
}

#[test]
fn paused_deposit_is_refused() {
    let mut vault = SimVault::new();
    vault.storage.status = VaultStatus::Paused;
    assert_eq!(vault.deposit("user", 100_0000000i128), Err(Error::VaultNotActive));
    assert_eq!(vault.storage.total_shares, 0);
}

#[test]
fn protocol_count_is_capped() {
    assert_eq!(VaultContract::check_protocol_count(0), Ok(()));
    assert_eq!(VaultContract::check_protocol_count(9), Ok(()));
    assert_eq!(VaultContract::check_protocol_count(10), Err(Error::TooManyProtocols));
}
