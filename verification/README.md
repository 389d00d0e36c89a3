# neko_contracts

Verified core of the Neko yield vault on Stellar and of its protocol adapters.

- `src/` — the logic, proved with Verus:
  - `soroswap/` — slippage configuration, price impact, integer square root,
    fair LP valuation, and the decisions of the adapter's deposit and withdraw
    flows (swap leg, liquidity leg, burn plan, swap back, settlement), with the laws
    that a swap keeping `k` moves the fair value by rounding only, that a single swap
    of up to 10% of a reserve moves it by at most 0.5%, and that the price impact
    bounds a constant-product swap's slippage;
  - `lending.rs`, `blend/`, `neko/` — b-token conversions of the lending adapters;
  - `aquarius/` — the Aquarius adapter's checks and a constant-product pool;
  - `vault/` — initialization, deposits and withdrawals priced at the NAV, share
    balances, allowances, NAV and share price, the harvest state machine (with the
    law that a harvest credits exactly the sum of what each protocol brings), and the
    management and performance fees, each computing the NAV from the protocols'
    reported balances.
- `app/` — the Soroban contracts: storage, cross-contract calls, authorization and
  events, handing plain values to the library.
- `tests/` — scenario tests, including a simulated constant-product pair driving the
  Soroswap adapter's decisions.
