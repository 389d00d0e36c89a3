use neko_contracts::aquarius::contract::AquariusAdapter;
use neko_contracts::blend::blend_pool::{position_value, withdraw, WithdrawRequest};
use neko_contracts::blend::contract::BlendAdapter;
use neko_contracts::lending::{b_tokens_for_underlying, underlying_for_b_tokens, SCALAR_12};
use neko_contracts::neko::contract::{NekoAdapter, NekoWithdraw};
use neko_contracts::soroswap::contract::SoroswapAdapter;

#[test]
fn mod_test_adapter_apy_returns_zero() {
    assert_eq!(SoroswapAdapter::a_get_apy(), 0);
    assert_eq!(BlendAdapter::a_get_apy(), 0);
    assert_eq!(NekoAdapter::a_get_apy(), 0);
    assert_eq!(AquariusAdapter::a_get_apy(), 0);
}

#[test]
fn b_token_conversion_rounds_up_then_down() {
    let rate = 1_100_000_000_000i128; // 1.1 underlying per b-token
    // 100 underlying → ceil(100 / 1.1) = 91 b-tokens
    assert_eq!(b_tokens_for_underlying(100, rate), 91);
    // 91 b-tokens are worth floor(100.1) = 100
    assert_eq!(underlying_for_b_tokens(91, rate), 100);
    assert_eq!(b_tokens_for_underlying(0, rate), 0);
    assert_eq!(b_tokens_for_underlying(100, 0), 0);
    assert_eq!(underlying_for_b_tokens(5, SCALAR_12), 5);
}

#[test]
fn blend_withdraw_caps_at_position() {
    let rate = 1_100_000_000_000i128;
    assert_eq!(withdraw(100, rate, 1_000), Some(WithdrawRequest { b_tokens: 91, amount: 100 }));
    // only 50 b-tokens held: 55 underlying
    assert_eq!(withdraw(100, rate, 50), Some(WithdrawRequest { b_tokens: 50, amount: 55 }));
    assert_eq!(withdraw(100, rate, 0), None);
    assert_eq!(withdraw(0, rate, 1_000), None);
    assert_eq!(position_value(0, rate), 0);
    assert_eq!(position_value(1_000, rate), 1_100);
}

#[test]
fn neko_withdraw_caps_at_balance() {
    let rate = 2 * SCALAR_12;
    assert_eq!(NekoAdapter::a_withdraw(101, rate, 1_000), Some(NekoWithdraw { b_tokens: 51, underlying_out: 102 }));
    assert_eq!(NekoAdapter::a_withdraw(101, rate, 10), Some(NekoWithdraw { b_tokens: 10, underlying_out: 20 }));
    assert_eq!(NekoAdapter::a_withdraw(101, rate, 0), None);
    assert_eq!(NekoAdapter::balance_in_underlying(10, rate), 20);
}

#[test]
fn blend_adapter_withdraw_returns_tokens() {
    // A deposit of 100 tokens at a b_rate of 1.0 holds 100 tokens of b-tokens.
    let b_rate = SCALAR_12;
    let amount = 100_0000000i128;
    let position = b_tokens_for_underlying(amount, b_rate);
    assert_eq!(position, amount);
    let mut vault_balance = 0i128;
    let vault_balance_before = vault_balance;

    let request = withdraw(50_0000000i128, b_rate, position).unwrap();
    let actual = request.amount;
    vault_balance += actual;

    assert!(actual > 0);
    assert_eq!(vault_balance, vault_balance_before + actual);
    assert_eq!(request, WithdrawRequest { b_tokens: 50_0000000, amount: 50_0000000 });
    assert_eq!(position_value(position - request.b_tokens, b_rate), 50_0000000);
}

#[test]
fn blend_claims_supply_emissions() {
    assert_eq!(BlendAdapter::supply_claim_id(0), Some(1));
    assert_eq!(BlendAdapter::supply_claim_id(3), Some(7));
    assert_eq!(BlendAdapter::supply_claim_id(u32::MAX / 2), Some(u32::MAX));
    assert_eq!(BlendAdapter::supply_claim_id(u32::MAX / 2 + 1), None);
}
