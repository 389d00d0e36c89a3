use neko_contracts::soroswap::contract::SoroswapAdapter;
use neko_contracts::soroswap::error::Error;
use neko_contracts::soroswap::soroswap_pool::{
    estimate_swap_out, get_fair_value, get_price_impact_bps, isqrt, plan_add_liquidity,
    plan_deposit_swap, plan_swap_back, plan_withdraw, position_value, price_impact_bps,
    received_amount, settle_withdraw, PairPosition, PairReserves,
};
use neko_contracts::soroswap::storage::Storage;
use neko_contracts::soroswap::types::SlippageConfig;

// A plain constant-product pair with Soroswap's 0.3% fee, standing in for the
// Soroswap router and pair contracts.
struct SimPair {
    reserve_a: i128,
    reserve_b: i128,
    total_lp: i128,
    adapter_lp: i128,
}

impl SimPair {
    fn seeded(a: i128, b: i128) -> SimPair {
        let lp = isqrt(a * b);
        SimPair { reserve_a: a, reserve_b: b, total_lp: lp, adapter_lp: 0 }
    }

    fn reserves(&self) -> PairReserves {
        PairReserves { reserve0: self.reserve_a, reserve1: self.reserve_b, token0_is_a: true }
    }

    fn position(&self) -> PairPosition {
        PairPosition { lp_balance: self.adapter_lp, total_lp: self.total_lp, reserves: self.reserves() }
    }

    fn swap_a_for_b(&mut self, amount_in: i128, min_out: i128) -> Option<i128> {
        let out = amount_in * 997 * self.reserve_b / (self.reserve_a * 1000 + amount_in * 997);
        if out < min_out {
            return None;
        }
        self.reserve_a += amount_in;
        self.reserve_b -= out;
        Some(out)
    }

    fn swap_b_for_a(&mut self, amount_in: i128, min_out: i128) -> Option<i128> {
        let out = amount_in * 997 * self.reserve_a / (self.reserve_b * 1000 + amount_in * 997);
        if out < min_out {
            return None;
        }
        self.reserve_b += amount_in;
        self.reserve_a -= out;
        Some(out)
    }

    fn add_liquidity(&mut self, a: i128, b: i128, min_a: i128, min_b: i128) -> Option<i128> {
        let b_optimal = a * self.reserve_b / self.reserve_a;
        let (use_a, use_b) = if b_optimal <= b {
            (a, b_optimal)
        } else {
            (b * self.reserve_a / self.reserve_b, b)
        };
        if use_a < min_a || use_b < min_b {
            return None;
        }
        let minted = std::cmp::min(
            use_a * self.total_lp / self.reserve_a,
            use_b * self.total_lp / self.reserve_b,
        );
        self.reserve_a += use_a;
        self.reserve_b += use_b;
        self.total_lp += minted;
        self.adapter_lp += minted;
        Some(minted)
    }

    fn remove_liquidity(&mut self, lp: i128, min_a: i128, min_b: i128) -> Option<(i128, i128)> {
        let a = self.reserve_a * lp / self.total_lp;
        let b = self.reserve_b * lp / self.total_lp;
        if a < min_a || b < min_b {
            return None;
        }
        self.reserve_a -= a;
        self.reserve_b -= b;
        self.total_lp -= lp;
        self.adapter_lp -= lp;
        Some((a, b))
    }

    // The adapter's deposit flow, driven by the library's decisions.
    fn deposit(&mut self, amount: i128, config: &SlippageConfig) -> Result<i128, Error> {
        let swap = plan_deposit_swap(amount, config, &self.reserves())?;
        let b_received = self.swap_a_for_b(swap.swap_amount, swap.min_b_out).expect("swap");
        let add = plan_add_liquidity(swap.remaining_a, b_received, config, &self.reserves());
        self.add_liquidity(add.amount_a, add.amount_b, add.min_a, add.min_b).expect("add");
        Ok(get_fair_value(&self.position()))
    }

    // The adapter's withdraw flow, driven by the library's decisions.
    fn withdraw(&mut self, amount: i128, config: &SlippageConfig) -> i128 {
        let plan = match plan_withdraw(amount, &self.position(), config) {
            Some(p) => p,
            None => return 0,
        };
        let (a_out, b_out) =
            self.remove_liquidity(plan.lp_to_burn, plan.min_a_out, plan.min_b_out).expect("remove");
        let swapped = match plan_swap_back(b_out, &self.reserves(), config) {
            Some(s) => self.swap_b_for_a(s.amount_in, s.min_out).expect("swap back"),
            None => 0,
        };
        settle_withdraw(a_out, swapped).total_a
    }
}

fn fixture() -> SimPair {
    // 1:1 initial price, 100_000 of each token (7 decimals)
    SimPair::seeded(100_000_0000000, 100_000_0000000)
}

fn adapter_storage() -> Storage {
    let mut storage = Storage::empty();
    SoroswapAdapter::initialize(&mut storage);
    storage
}

#[test]
fn test_default_slippage_config_is_set_on_initialize() {
    let storage = adapter_storage();
    let cfg = SoroswapAdapter::get_slippage_config(&storage);
    assert_eq!(cfg.max_slippage_bps, 50, "default slippage should be 50 bps");
    assert_eq!(cfg.max_price_impact_bps, 100, "default price impact should be 100 bps");
}

#[test]
fn test_admin_can_update_slippage_config() {
    let mut storage = adapter_storage();
    let new_cfg = SlippageConfig { max_slippage_bps: 30, max_price_impact_bps: 200 };
    SoroswapAdapter::set_slippage_config(&mut storage, true, &new_cfg).unwrap();
    let cfg = SoroswapAdapter::get_slippage_config(&storage);
    assert_eq!(cfg.max_slippage_bps, 30);
    assert_eq!(cfg.max_price_impact_bps, 200);
}

#[test]
fn test_non_admin_cannot_update_slippage_config() {
    let mut storage = adapter_storage();
    let result = SoroswapAdapter::set_slippage_config(
        &mut storage,
        false,
        &SlippageConfig { max_slippage_bps: 500, max_price_impact_bps: 500 },
    );
    assert!(result.is_err(), "non-admin should not be able to set slippage config");
    assert_eq!(result, Err(Error::NotAdmin));
    assert_eq!(SoroswapAdapter::get_slippage_config(&storage), SlippageConfig::default());
}

#[test]
fn slippage_config_above_100_percent_is_rejected() {
    let mut storage = adapter_storage();
    let result = SoroswapAdapter::set_slippage_config(
        &mut storage,
        true,
        &SlippageConfig { max_slippage_bps: 10_001, max_price_impact_bps: 100 },
    );
    assert_eq!(result, Err(Error::ArithmeticError));
    assert_eq!(SoroswapAdapter::get_slippage_config(&storage), SlippageConfig::default());
    assert_eq!(Error::ArithmeticError.code(), 6);
    assert_eq!(Error::PriceImpactTooHigh.code(), 9);
}

#[test]
fn slippage_falls_back_to_default_when_never_set() {
    let storage = Storage::empty();
    assert_eq!(storage.load_slippage(), SlippageConfig { max_slippage_bps: 50, max_price_impact_bps: 100 });
}

#[test]
fn min_out_applies_slippage() {
    let cfg = SlippageConfig { max_slippage_bps: 50, max_price_impact_bps: 100 };
    assert_eq!(cfg.min_out(10_000), 9_950);
    assert_eq!(cfg.min_out(1_999), 1_989); // 1_999 * 9_950 / 10_000 = 1_989.005
    assert_eq!(cfg.min_out(-1_999), -1_989); // rounds toward zero
    assert_eq!(cfg.min_out(i128::MAX), 0); // overflow falls back to 0
    let none = SlippageConfig { max_slippage_bps: 0, max_price_impact_bps: 0 };
    assert_eq!(none.min_out(12_345), 12_345);
}

#[test]
fn isqrt_is_floor_square_root() {
    assert_eq!(isqrt(0), 0);
    assert_eq!(isqrt(-5), 0);
    assert_eq!(isqrt(1), 1);
    assert_eq!(isqrt(15), 3);
    assert_eq!(isqrt(16), 4);
    assert_eq!(isqrt(17), 4);
    assert_eq!(isqrt(1_000_000_000_000), 1_000_000);
    let big = i128::MAX - 1;
    let r = isqrt(big);
    assert!(r * r <= big);
    assert!((r + 1).checked_mul(r + 1).map_or(true, |sq| sq > big));
}

#[test]
fn price_impact_formula() {
    assert_eq!(price_impact_bps(100, 900), 1_000);
    assert_eq!(price_impact_bps(0, 900), 0);
    assert_eq!(price_impact_bps(100, 0), 0);
    assert_eq!(price_impact_bps(-1, 900), 0);
    // amount_in * 10_000 overflows: i128::MAX stands in for the product
    assert_eq!(price_impact_bps(i128::MAX / 2, i128::MAX / 2), 1);
}

#[test]
fn test_price_impact_bps_small_trade() {
    let pair = fixture();
    // 100 tokens against 100_000 reserve → impact ≈ 100/100_100 ≈ 10 bps
    let impact = get_price_impact_bps(100_0000000i128, &pair.reserves());
    assert!(impact < 200, "small trade should have low price impact: {impact} bps");
    assert!(impact > 0, "impact should be non-zero for non-trivial trade");
    assert_eq!(impact, 9);
}

#[test]
fn test_price_impact_bps_large_trade() {
    let pair = fixture();
    // 50_000 tokens against 100_000 reserve → impact ≈ 33%
    let impact = get_price_impact_bps(50_000_0000000i128, &pair.reserves());
    assert!(impact > 2_000, "large trade should have significant price impact: {impact} bps");
    assert_eq!(impact, 3_333);
}

#[test]
fn test_deposit_rejected_when_price_impact_exceeds_limit() {
    let mut pair = fixture();
    let cfg = SlippageConfig { max_slippage_bps: 50, max_price_impact_bps: 5 };
    let amount = 1_000_0000000i128;
    let result = pair.deposit(amount, &cfg);
    assert!(result.is_err(), "deposit should be rejected when price impact exceeds limit");
    assert_eq!(result, Err(Error::PriceImpactTooHigh));
}

#[test]
fn deposit_plan_splits_amount() {
    let pair = fixture();
    let cfg = SlippageConfig::default();
    let plan = plan_deposit_swap(1_001, &cfg, &pair.reserves()).unwrap();
    assert_eq!(plan.swap_amount, 500);
    assert_eq!(plan.remaining_a, 501);
    // 500 * 997 * 1e12 / (1e12 * 1000 + 500 * 997) = 498, then 0.5% off
    assert_eq!(estimate_swap_out(500, 100_000_0000000, 100_000_0000000), 498);
    assert_eq!(plan.min_b_out, 495);
}

#[test]
fn add_liquidity_plan_caps_token_b_at_received() {
    let reserves = PairReserves { reserve0: 2_000, reserve1: 1_000, token0_is_a: true };
    let cfg = SlippageConfig { max_slippage_bps: 100, max_price_impact_bps: 100 };
    let plan = plan_add_liquidity(500, 300, &cfg, &reserves);
    assert_eq!(plan.amount_a, 500);
    assert_eq!(plan.amount_b, 250); // 500 * 1_000 / 2_000
    assert_eq!(plan.min_a, 495);
    assert_eq!(plan.min_b, 247);
    let capped = plan_add_liquidity(500, 100, &cfg, &reserves);
    assert_eq!(capped.amount_b, 100);
}

#[test]
fn reserves_follow_token_order() {
    let r = PairReserves { reserve0: 7, reserve1: 9, token0_is_a: false };
    assert_eq!(r.reserve_a(), 9);
    assert_eq!(r.reserve_b(), 7);
}

#[test]
fn test_fair_value_zero_when_no_position() {
    let pair = fixture();
    assert_eq!(get_fair_value(&pair.position()), 0i128);
    assert_eq!(position_value(&pair.position()), 0i128);
}

#[test]
fn fair_value_of_balanced_position() {
    // 10% of a 1_000 / 4_000 pool: shares 100 and 400, 2 * sqrt(100 * 400) = 400.
    let p = PairPosition {
        lp_balance: 100,
        total_lp: 1_000,
        reserves: PairReserves { reserve0: 1_000, reserve1: 4_000, token0_is_a: true },
    };
    assert_eq!(get_fair_value(&p), 400);
    // the same pool reported with token_b first
    let swapped = PairPosition {
        reserves: PairReserves { reserve0: 4_000, reserve1: 1_000, token0_is_a: false },
        ..p
    };
    assert_eq!(get_fair_value(&swapped), 400);
    let empty_reserve = PairPosition {
        lp_balance: 100,
        total_lp: 1_000,
        reserves: PairReserves { reserve0: 0, reserve1: 4_000, token0_is_a: true },
    };
    assert_eq!(get_fair_value(&empty_reserve), 0);
}

#[test]
fn test_withdraw_zero_when_no_position() {
    let mut pair = fixture();
    let result = pair.withdraw(1_000_0000000i128, &SlippageConfig::default());
    assert_eq!(result, 0i128);
}

#[test]
fn withdraw_plan_burns_proportionally() {
    let p = PairPosition {
        lp_balance: 100,
        total_lp: 1_000,
        reserves: PairReserves { reserve0: 1_000, reserve1: 4_000, token0_is_a: true },
    };
    let none = SlippageConfig { max_slippage_bps: 0, max_price_impact_bps: 0 };
    // fair value is 400: withdrawing 100 burns a quarter of the LP tokens
    let plan = plan_withdraw(100, &p, &none).unwrap();
    assert_eq!(plan.lp_to_burn, 25);
    assert_eq!(plan.min_a_out, 25);
    assert_eq!(plan.min_b_out, 100);
    // withdrawing at least the fair value burns everything
    assert_eq!(plan_withdraw(500, &p, &none).unwrap().lp_to_burn, 100);
    // a tiny amount rounds to no LP token
    assert!(plan_withdraw(1, &p, &none).is_none());
}

#[test]
fn swap_back_and_settlement() {
    let reserves = PairReserves { reserve0: 1_000_000, reserve1: 1_000_000, token0_is_a: true };
    let none = SlippageConfig { max_slippage_bps: 0, max_price_impact_bps: 0 };
    assert!(plan_swap_back(0, &reserves, &none).is_none());
    let s = plan_swap_back(1_000, &reserves, &none).unwrap();
    assert_eq!(s.amount_in, 1_000);
    assert_eq!(s.min_out, 996);
    let settled = settle_withdraw(400, 0);
    assert_eq!(settled.total_a, 400);
    assert!(settled.transfer_to_vault);
    assert!(!settle_withdraw(0, 0).transfer_to_vault);
    assert_eq!(received_amount(&vec![10, 20, 30]), 30);
    assert_eq!(received_amount(&vec![]), 0);
}

#[test]
fn test_fair_value_resistant_to_10pct_reserve_skew() {
    let mut pair = fixture();
    let loose = SlippageConfig { max_slippage_bps: 9_000, max_price_impact_bps: 9_000 };
    let deposit_amount = 10_000_0000000i128;
    pair.deposit(deposit_amount, &loose).unwrap();

    let fair_before = get_fair_value(&pair.position());
    assert!(fair_before > 0, "fair value must be positive after deposit");

    // Attacker skews the pool by swapping 10% of reserve_a into token_b.
    pair.swap_a_for_b(10_000_0000000i128, 0).unwrap();

    let fair_after = get_fair_value(&pair.position());
    let diff = (fair_after - fair_before).abs();
    let lhs = diff.checked_mul(10_000).unwrap_or(i128::MAX);
    let rhs = fair_before.checked_mul(50).unwrap_or(0);
    assert!(
        lhs <= rhs,
        "fair value changed by more than 0.5% after 10% reserve skew: before={fair_before}, after={fair_after}, diff={diff}"
    );
}

#[test]
fn test_fair_value_more_stable_than_spot_price_after_skew() {
    let mut pair = fixture();
    let loose = SlippageConfig { max_slippage_bps: 9_000, max_price_impact_bps: 9_000 };
    pair.deposit(10_000_0000000i128, &loose).unwrap();

    let fair_before = get_fair_value(&pair.position());
    let bal_before = position_value(&pair.position());

    pair.swap_a_for_b(20_000_0000000i128, 0).unwrap();

    let fair_after = get_fair_value(&pair.position());
    let bal_after = position_value(&pair.position());

    let fair_change = (fair_after - fair_before).abs();
    let bal_change = (bal_after - bal_before).abs();
    assert!(
        fair_change <= bal_change,
        "fair_value should be at least as stable as spot-price balance: fair_change={fair_change}, bal_change={bal_change}"
    );
}

#[test]
fn test_deposit_and_withdraw_within_slippage_bounds() {
    let mut pair = fixture();
    let cfg = SlippageConfig { max_slippage_bps: 100, max_price_impact_bps: 200 };
    let amount = 1_000_0000000i128;

    let pos = pair.deposit(amount, &cfg).unwrap();
    assert!(pos > 0, "position should be positive");

    let fair = get_fair_value(&pair.position());
    assert!(fair > 0);
    let deviation = (fair - amount).abs();
    assert!(
        deviation * 100 <= amount * 3,
        "fair value should be within 3% of deposit: amount={amount}, fair={fair}"
    );

    let actual = pair.withdraw(pos, &cfg);
    assert!(actual > 0, "withdraw should return positive amount");

    let pos_after = position_value(&pair.position());
    assert!(pos_after < 1_000, "position should be near zero after full withdraw: {pos_after}");
}

#[test]
fn mod_test_adapter_balance_starts_zero() {
    let pair = fixture();
    assert_eq!(position_value(&pair.position()), 0i128);
}

#[test]
fn mod_test_adapter_deposit_creates_position() {
    let mut pair = fixture();
    let config = SoroswapAdapter::get_slippage_config(&adapter_storage());
    let amount = 1_000_0000000i128;
    let balance_after = pair.deposit(amount, &config).unwrap();
    assert!(balance_after > 0, "balance should be positive after deposit");
    assert_eq!(position_value(&pair.position()), balance_after);
}

#[test]
fn mod_test_adapter_withdraw_returns_tokens() {
    let mut pair = fixture();
    let config = SoroswapAdapter::get_slippage_config(&adapter_storage());
    let amount = 1_000_0000000i128;
    pair.deposit(amount, &config).unwrap();

    let position_before = position_value(&pair.position());
    assert!(position_before > 0);

    let actual = pair.withdraw(position_before, &config);
    assert!(actual > 0, "withdraw should return positive amount");
    assert!(settle_withdraw(actual, 0).transfer_to_vault);
}

#[test]
fn isqrt_of_i128_max() {
    let r = isqrt(i128::MAX);
    assert_eq!(r, 13_043_817_825_332_782_212);
    assert!(r * r <= i128::MAX);
    assert!((r + 1).checked_mul(r + 1).is_none());
    assert_eq!(isqrt(i128::MAX - 1), 13_043_817_825_332_782_212);
}

#[test]
fn fair_value_unchanged_by_swap_that_keeps_k() {
    let before = PairPosition {
        lp_balance: 10_000_0000000,
        total_lp: 100_000_0000000,
        reserves: PairReserves { reserve0: 100_000_0000000, reserve1: 100_000_0000000, token0_is_a: true },
    };
    // 125_000 × 80_000 == 100_000 × 100_000: the same k, skewed 25% / -20%
    let after = PairPosition {
        reserves: PairReserves { reserve0: 125_000_0000000, reserve1: 80_000_0000000, token0_is_a: true },
        ..before
    };
    let f1 = get_fair_value(&before);
    let f2 = get_fair_value(&after);
    assert_eq!(f1, 20_000_0000000);
    assert_eq!(f2, 20_000_0000000);
    // token order does not matter
    let flipped = PairPosition {
        reserves: PairReserves { reserve0: 80_000_0000000, reserve1: 125_000_0000000, token0_is_a: false },
        ..before
    };
    assert_eq!(get_fair_value(&flipped), f2);
}

#[test]
fn price_impact_bounds_constant_product_shortfall() {
    // 100 into 900: the fee-free shortfall is exactly 100 / 1000 = 10%
    let impact = price_impact_bps(100, 900) as i128;
    assert_eq!(impact, 1_000);
    let spot_out = 100 * 900 / 900; // output at the spot price, pool of 900 / 900
    let cp_out = 100 * 900 / (900 + 100);
    assert_eq!(spot_out - cp_out, 10);
    assert!((spot_out - cp_out) * 10_000 <= (impact + 1) * spot_out);
    // with the 0.3% fee the shortfall below the fee-adjusted spot output is smaller
    let r: i128 = 1_000_000;
    let a: i128 = 37_000;
    let impact = price_impact_bps(a, r) as i128;
    assert_eq!(impact, 356);
    assert!(10_000 * 997 * a < (impact + 1) * (1000 * r + 997 * a));
}
