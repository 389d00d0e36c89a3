use vstd::prelude::*;
use vstd::arithmetic::div_mod::lemma_div_is_ordered;
use crate::arith::{fits_i128, tdiv};
use crate::soroswap::soroswap_pool::{received_amount, received_spec};
use crate::vault::error::Error;
use crate::vault::events::HarvestedEvent;
use crate::vault::nav::{Nav, nav_result, price_result};
use crate::vault::types::{HarvestLimits, VaultStorage, BPS, SCALAR_7, SECONDS_PER_YEAR};

verus! {

/// Calls `a_harvest()` on all active protocols, accumulates rewards in the liquid
/// reserve and accrues the fees. Its decisions, in the order the harvest takes them.
pub struct Harvester;

/// What the harvest does with the reward one protocol reported.
#[derive(Clone, Copy, Debug, PartialEq, Eq, Structural)]
pub enum RewardAction {
    /// Nothing was harvested.
    Skip,
    /// The reward is in the deposit token and was added to the harvested total.
    Credited,
    /// The reward is swapped to the deposit token through the configured router.
    Swap { amount: i128 },
    /// The reward is below `min_swap_amount` and stays in the vault unswapped.
    Dust { amount: i128 },
}

/// The running state of one `harvest_all`.
#[derive(Clone, Copy, Debug, PartialEq, Eq, Structural)]
pub struct HarvestRun {
    /// Deposit-token amount credited so far.
    pub total_harvested: i128,
    /// The harvest configuration, when one is stored.
    pub limits: Option<HarvestLimits>,
}

/// The outcome of a completed harvest.
#[derive(Clone, Copy, Debug, PartialEq, Eq, Structural)]
pub struct HarvestOutcome {
    /// Shares to mint to the admin as management fee.
    pub fee_shares: i128,
    /// The event to publish.
    pub event: HarvestedEvent,
}

/// `min_amount_out` of a reward swap: `expected_out × (10000 - max_slippage_bps) / 10000`,
/// `ArithmeticError` when the product overflows.
pub open spec fn swap_floor_spec(expected_out: int, max_slippage_bps: int) -> Result<int, Error> {
    let product = expected_out * (10_000 - max_slippage_bps);
    if fits_i128(product) {
        Ok(tdiv(product, 10_000))
    } else {
        Err(Error::ArithmeticError)
    }
}

/// The slippage floor of a reward swap never falls when the expected amount rises
/// (for a tolerance of at most 100%).
pub proof fn lemma_swap_floor_monotone(e1: int, e2: int, max_slippage_bps: int)
    requires
        e1 <= e2,
        0 <= max_slippage_bps <= 10_000,
        swap_floor_spec(e1, max_slippage_bps) is Ok,
        swap_floor_spec(e2, max_slippage_bps) is Ok,
    ensures
        swap_floor_spec(e1, max_slippage_bps)->Ok_0 <= swap_floor_spec(e2, max_slippage_bps)->Ok_0,
{
    let f = 10_000 - max_slippage_bps;
    let x = e1 * f;
    let y = e2 * f;
    assert(x <= y) by (nonlinear_arith)
        requires
            e1 <= e2,
            f >= 0,
            x == e1 * f,
            y == e2 * f,
    ;
    if x >= 0 {
        lemma_div_is_ordered(x, y, 10_000);
    } else if y < 0 {
        lemma_div_is_ordered(-y, -x, 10_000);
    } else {
        assert((-x) / 10_000 >= 0) by (nonlinear_arith)
            requires
                x < 0,
        ;
        assert(y / 10_000 >= 0) by (nonlinear_arith)
            requires
                y >= 0,
        ;
    }
}

/// One reward step of a harvest: a non-positive amount is skipped; a reward in the
/// deposit token is added to the total (`ArithmeticError` on overflow); any other
/// reward needs a stored harvest configuration whose reward token it is
/// (`InvalidConfig` otherwise), and is swapped when it reaches `min_swap_amount` and
/// left as dust otherwise.
pub open spec fn reward_step_spec(
    run: HarvestRun,
    reward_is_deposit_token: bool,
    reward_is_config_token: bool,
    amount: i128,
) -> Result<(HarvestRun, RewardAction), Error> {
    if amount <= 0 {
        Ok((run, RewardAction::Skip))
    } else if reward_is_deposit_token {
        if fits_i128(run.total_harvested + amount) {
            Ok(
                (
                    HarvestRun {
                        total_harvested: (run.total_harvested + amount) as i128,
                        ..run
                    },
                    RewardAction::Credited,
                ),
            )
        } else {
            Err(Error::ArithmeticError)
        }
    } else {
        match run.limits {
            None => Err(Error::InvalidConfig),
            Some(limits) => if !reward_is_config_token {
                Err(Error::InvalidConfig)
            } else if amount >= limits.min_swap_amount {
                Ok((run, RewardAction::Swap { amount }))
            } else {
                Ok((run, RewardAction::Dust { amount }))
            },
        }
    }
}

/// A router answer as the harvest reads it: the amounts, or `None` when the call failed
/// or was not made.
pub open spec fn answer_view(answer: Option<Vec<i128>>) -> Option<Seq<i128>> {
    match answer {
        None => None,
        Some(v) => Some(v@),
    }
}

/// The estimate step of a reward swap: no swap (`None`) when the estimate call failed,
/// otherwise the `min_amount_out` from the last estimated amount (see
/// `swap_floor_spec`).
pub open spec fn estimate_step_spec(limits: HarvestLimits, amounts_out: Option<Seq<i128>>) -> Result<
    Option<i128>,
    Error,
> {
    match amounts_out {
        None => Ok(None),
        Some(v) => match swap_floor_spec(received_spec(v) as int, limits.max_slippage_bps as int) {
            Ok(m) => Ok(Some(m as i128)),
            Err(e) => Err(e),
        },
    }
}

/// The swap step of a reward swap: a failed swap leaves the run as it is; otherwise
/// the delivered amount (the last of the swap's amounts) is added to the total
/// (`ArithmeticError` on overflow).
pub open spec fn swap_step_spec(run: HarvestRun, swap_out: Option<Seq<i128>>) -> Result<HarvestRun, Error> {
    match swap_out {
        None => Ok(run),
        Some(v) => if fits_i128(run.total_harvested + received_spec(v)) {
            Ok(HarvestRun { total_harvested: (run.total_harvested + received_spec(v)) as i128, ..run })
        } else {
            Err(Error::ArithmeticError)
        },
    }
}

/// What one protocol brought to a harvest: whether it is active, the reward its adapter
/// reported, and the router's answers to the estimate and to the swap of that reward
/// (`None` for a call that failed or was not made).
pub struct ProtocolHarvest {
    pub is_active: bool,
    pub reward_is_deposit_token: bool,
    pub reward_is_config_token: bool,
    pub amount: i128,
    pub amounts_out: Option<Seq<i128>>,
    pub swap_out: Option<Seq<i128>>,
}

/// One protocol's turn in a harvest: `on_reward`, then for a reward to swap
/// `on_estimate` and, when an estimate came back, `on_swap`.
pub open spec fn protocol_step_spec(run: HarvestRun, p: ProtocolHarvest) -> Result<HarvestRun, Error> {
    if !p.is_active {
        Ok(run)
    } else {
        match reward_step_spec(run, p.reward_is_deposit_token, p.reward_is_config_token, p.amount) {
            Err(e) => Err(e),
            Ok((next, action)) => match action {
                RewardAction::Swap { .. } => match estimate_step_spec(next.limits->0, p.amounts_out) {
                    Err(e) => Err(e),
                    Ok(None) => Ok(next),
                    Ok(Some(_)) => swap_step_spec(next, p.swap_out),
                },
                _ => Ok(next),
            },
        }
    }
}

/// A harvest over the protocols in order: the run after every protocol's turn, or the
/// first error.
pub open spec fn harvest_spec(run: HarvestRun, protocols: Seq<ProtocolHarvest>) -> Result<HarvestRun, Error>
    decreases protocols.len(),
{
    if protocols.len() == 0 {
        Ok(run)
    } else {
        match harvest_spec(run, protocols.drop_last()) {
            Err(e) => Err(e),
            Ok(before) => protocol_step_spec(before, protocols.last()),
        }
    }
}

/// What one protocol adds to the harvested total: nothing when it is inactive or
/// reported no reward; the reward itself when it is in the deposit token; otherwise
/// what the swap delivered, and nothing when the reward was dust, or the estimate or
/// the swap failed.
pub open spec fn credited_spec(limits: Option<HarvestLimits>, p: ProtocolHarvest) -> int {
    if !p.is_active || p.amount <= 0 {
        0
    } else if p.reward_is_deposit_token {
        p.amount as int
    } else {
        match limits {
            None => 0,
            Some(l) => if !p.reward_is_config_token || p.amount < l.min_swap_amount {
                0
            } else {
                match p.amounts_out {
                    None => 0,
                    Some(_) => match p.swap_out {
                        None => 0,
                        Some(w) => received_spec(w) as int,
                    },
                }
            },
        }
    }
}

/// The sum of what each protocol adds.
pub open spec fn credited_sum(limits: Option<HarvestLimits>, protocols: Seq<ProtocolHarvest>) -> int
    decreases protocols.len(),
{
    if protocols.len() == 0 {
        0
    } else {
        credited_sum(limits, protocols.drop_last()) + credited_spec(limits, protocols.last())
    }
}

/// Every swap the router reports delivered a non-negative amount.
pub open spec fn swaps_deliver_nonneg(protocols: Seq<ProtocolHarvest>) -> bool {
    forall|i: int|
        0 <= i < protocols.len() ==> match #[trigger] protocols[i].swap_out {
            None => true,
            Some(w) => received_spec(w) >= 0,
        }
}

proof fn lemma_credited_sum_nonneg(limits: Option<HarvestLimits>, protocols: Seq<ProtocolHarvest>)
    requires
        swaps_deliver_nonneg(protocols),
    ensures
        credited_sum(limits, protocols) >= 0,
    decreases protocols.len(),
{
    if protocols.len() > 0 {
        let rest = protocols.drop_last();
        assert forall|i: int| 0 <= i < rest.len() implies match #[trigger] rest[i].swap_out {
            None => true,
            Some(w) => received_spec(w) >= 0,
        } by {
            assert(rest[i] == protocols[i]);
        }
        lemma_credited_sum_nonneg(limits, rest);
        assert(protocols.last() == protocols[protocols.len() - 1]);
    }
}

/// The harvested total is the sum of what each protocol credits: a harvest that
/// succeeds raises the run's total by exactly `credited_sum`, swaps included, and
/// keeps its configuration.
pub proof fn lemma_harvest_sums_credits(run: HarvestRun, protocols: Seq<ProtocolHarvest>)
    requires
        harvest_spec(run, protocols) is Ok,
    ensures
        (harvest_spec(run, protocols)->Ok_0).limits == run.limits,
        (harvest_spec(run, protocols)->Ok_0).total_harvested == run.total_harvested + credited_sum(
            run.limits,
            protocols,
        ),
    decreases protocols.len(),
{
    if protocols.len() > 0 {
        lemma_harvest_sums_credits(run, protocols.drop_last());
    }
}

/// A whole harvest: started from the stored configuration, run over the protocols and
/// completed, it succeeds with the total `h` that is the sum of what each protocol
/// credits, and the liquid reserve grows by exactly `h`; `h` is non-negative when no
/// swap reports a negative delivery.
pub proof fn lemma_harvest_all(
    limits: Option<HarvestLimits>,
    protocols: Seq<ProtocolHarvest>,
    s: VaultStorage,
    now: u64,
    nav: Result<i128, Error>,
    share_price: Result<i128, Error>,
)
    requires
        harvest_spec(HarvestRun { total_harvested: 0, limits }, protocols) is Ok,
        harvest_finish_spec(
            s,
            (harvest_spec(HarvestRun { total_harvested: 0, limits }, protocols)->Ok_0).total_harvested
                as int,
            now,
            nav,
            share_price,
        ) is Ok,
    ensures
        ({
            let h = (harvest_spec(HarvestRun { total_harvested: 0, limits }, protocols)->Ok_0).total_harvested;
            let s1 = (harvest_finish_spec(s, h as int, now, nav, share_price)->Ok_0).0;
            &&& h == credited_sum(limits, protocols)
            &&& s1.liquid_reserve == s.liquid_reserve + h
            &&& swaps_deliver_nonneg(protocols) ==> h >= 0
        }),
{
    lemma_harvest_sums_credits(HarvestRun { total_harvested: 0, limits }, protocols);
    if swaps_deliver_nonneg(protocols) {
        lemma_credited_sum_nonneg(limits, protocols);
    }
}

impl Harvester {
    /// Only active protocols are harvested.
    pub fn is_harvested(is_active: bool) -> (r: bool)
        ensures
            r == is_active,
    {
        is_active
    }

    /// Starts a harvest with the stored harvest configuration, if any.
    pub fn start(limits: Option<HarvestLimits>) -> (run: HarvestRun)
        ensures
            run.total_harvested == 0,
            run.limits == limits,
    {
        HarvestRun { total_harvested: 0, limits }
    }
}

impl HarvestRun {
    /// Handles the reward `(reward_token, amount)` that an active protocol's adapter
    /// reported (see `reward_step_spec`). On an error the run is unchanged.
    pub fn on_reward(&mut self, reward_is_deposit_token: bool, reward_is_config_token: bool, amount: i128) -> (r: Result<
        RewardAction,
        Error,
    >)
        ensures
            match reward_step_spec(*old(self), reward_is_deposit_token, reward_is_config_token, amount) {
                Ok((next, action)) => r == Ok::<RewardAction, Error>(action) && *final(self) == next,
                Err(e) => r == Err::<RewardAction, Error>(e) && *final(self) == *old(self),
            },
    {
        if amount <= 0 {
            return Ok(RewardAction::Skip);
        }
        if reward_is_deposit_token {
            match self.total_harvested.checked_add(amount) {
                Some(t) => {
                    self.total_harvested = t;
                    Ok(RewardAction::Credited)
                },
                None => Err(Error::ArithmeticError),
            }
        } else {
            match self.limits {
                None => Err(Error::InvalidConfig),
                Some(limits) => {
                    if !reward_is_config_token {
                        return Err(Error::InvalidConfig);
                    }
                    if amount >= limits.min_swap_amount {
                        Ok(RewardAction::Swap { amount })
                    } else {
                        Ok(RewardAction::Dust { amount })
                    }
                },
            }
        }
    }

    /// Handles the router's estimate (`router_get_amounts_out`) for a reward swap:
    /// `None` when the estimate call failed, and then no swap is made; otherwise the
    /// `min_amount_out` for the swap, from the last estimated amount reduced by
    /// `max_slippage_bps` (`ArithmeticError` when that overflows).
    pub fn on_estimate(&self, amounts_out: Option<Vec<i128>>) -> (r: Result<Option<i128>, Error>)
        requires
            self.limits is Some,
        ensures
            r == estimate_step_spec(self.limits->0, answer_view(amounts_out)),
    {
        match amounts_out {
            None => Ok(None),
            Some(v) => {
                let expected_out = received_amount(&v);
                let limits = self.limits.unwrap();
                let factor: i128 = 10_000 - limits.max_slippage_bps as i128;
                match expected_out.checked_mul(factor) {
                    None => Err(Error::ArithmeticError),
                    Some(p) => match p.checked_div(10_000) {
                        None => Err(Error::ArithmeticError),
                        Some(m) => Ok(Some(m)),
                    },
                }
            },
        }
    }

    /// Handles the result of a reward swap: `None` when the swap call failed (the
    /// reward is kept unswapped); otherwise the delivered amount is added to the total
    /// (`ArithmeticError` on overflow, leaving the run unchanged).
    pub fn on_swap(&mut self, swap_out: Option<Vec<i128>>) -> (r: Result<(), Error>)
        ensures
            match swap_step_spec(*old(self), answer_view(swap_out)) {
                Ok(next) => r == Ok::<(), Error>(()) && *final(self) == next,
                Err(e) => r == Err::<(), Error>(e) && *final(self) == *old(self),
            },
    {
        match swap_out {
            None => Ok(()),
            Some(v) => {
                let actual_out = received_amount(&v);
                match self.total_harvested.checked_add(actual_out) {
                    Some(t) => {
                        self.total_harvested = t;
                        Ok(())
                    },
                    None => Err(Error::ArithmeticError),
                }
            },
        }
    }
}

// ─── Fee accrual ──────────────────────────────────────────────────────────────

/// `x as u128` for an `i128` value: the value modulo 2^128.
pub open spec fn as_u128(x: int) -> int {
    if x >= 0 {
        x
    } else {
        x + 0x1_0000_0000_0000_0000_0000_0000_0000_0000
    }
}

/// Seconds since the last accrual, and 0 when `now` is not after it.
pub open spec fn elapsed_spec(now: u64, last: u64) -> int {
    if now >= last {
        now - last
    } else {
        0
    }
}

/// The management fee accrued over `elapsed` seconds on `nav`, in deposit-token units:
/// `nav × management_fee_bps × elapsed / BPS / SECONDS_PER_YEAR`, computed on the
/// `u128` image of `nav`, where each product that overflows `u128` counts as 0.
pub open spec fn management_fee_spec(nav: int, fee_bps: int, elapsed: int) -> int {
    let n = as_u128(nav);
    let p1 = if n * fee_bps <= u128::MAX {
        n * fee_bps
    } else {
        0
    };
    let p2 = if p1 * elapsed <= u128::MAX {
        p1 * elapsed
    } else {
        0
    };
    p2 / 10_000 / 31_536_000
}

/// Management-fee accrual at time `now`, given the NAV and the share price that the
/// vault's NAV module reports (or the error it fails with): the new storage and the
/// fee shares to mint to the admin, or the error.
///
/// Nothing happens when no time has passed or the fee rate is zero. Otherwise the
/// fee `management_fee_spec` is converted to shares at the share price
/// (`fee × SCALAR_7 / share_price`) and added to the total supply, and the accrual
/// time moves to `now`.
pub open spec fn accrual_spec(
    s: VaultStorage,
    now: u64,
    nav: Result<i128, Error>,
    share_price: Result<i128, Error>,
) -> Result<(VaultStorage, int), Error> {
    let elapsed = elapsed_spec(now, s.last_fee_accrual);
    let accrued = VaultStorage { last_fee_accrual: now, ..s };
    if elapsed == 0 || s.config.management_fee_bps == 0 {
        Ok((s, 0))
    } else {
        match nav {
            Err(e) => Err(e),
            Ok(nav) => if nav == 0 {
                Ok((accrued, 0))
            } else {
                let fee = management_fee_spec(
                    nav as int,
                    s.config.management_fee_bps as int,
                    elapsed,
                );
                if fee > 0 && s.total_shares > 0 {
                    match share_price {
                        Err(e) => Err(e),
                        Ok(sp) => {
                            let x = fee * 10_000_000;
                            if !fits_i128(x) || sp == 0 || !fits_i128(tdiv(x, sp as int)) {
                                Err(Error::ArithmeticError)
                            } else {
                                let fee_shares = tdiv(x, sp as int);
                                if fee_shares > 0 {
                                    if fits_i128(s.total_shares + fee_shares) {
                                        Ok(
                                            (
                                                VaultStorage {
                                                    total_shares: (s.total_shares + fee_shares) as i128,
                                                    last_fee_accrual: now,
                                                    ..s
                                                },
                                                fee_shares,
                                            ),
                                        )
                                    } else {
                                        Err(Error::ArithmeticError)
                                    }
                                } else {
                                    Ok((accrued, 0))
                                }
                            }
                        },
                    }
                } else {
                    Ok((accrued, 0))
                }
            },
        }
    }
}

proof fn lemma_as_u128(x: i128)
    ensures
        (x as u128) as int == as_u128(x as int),
{
    assert(x >= 0 ==> (x as u128) == x) by (bit_vector);
    assert(x < 0 ==> (x as u128) == x + 0x1_0000_0000_0000_0000_0000_0000_0000_0000) by (bit_vector);
}

impl Harvester {
    /// Accrue management fee as newly minted shares to the admin.
    ///
    /// fee_shares = NAV * mgmt_fee_bps * elapsed_seconds / BPS / SECONDS_PER_YEAR,
    /// converted at the current share price. The NAV is the liquid reserve plus
    /// `balances`, the `a_balance` of each active protocol in order (only read when
    /// `accrual_needs_nav`), and the share price is `Nav::share_price` of it. Returns
    /// the shares to mint; on an error the storage is unchanged.
    pub fn accrue_management_fee(storage: &mut VaultStorage, now: u64, balances: &Vec<i128>) -> (r: Result<
        i128,
        Error,
    >)
        ensures
            match accrual_spec(
                *old(storage),
                now,
                nav_result(old(storage).liquid_reserve as int, balances@),
                price_result(
                    old(storage).liquid_reserve as int,
                    balances@,
                    old(storage).total_shares as int,
                ),
            ) {
                Ok((s, f)) => r == Ok::<i128, Error>(f as i128) && *final(storage) == s,
                Err(e) => r == Err::<i128, Error>(e) && *final(storage) == *old(storage),
            },
    {
        let elapsed = now.saturating_sub(storage.last_fee_accrual);
        if elapsed == 0 || storage.config.management_fee_bps == 0 {
            return Ok(0);
        }
        let nav = match Nav::calculate(storage.liquid_reserve, balances) {
            Ok(n) => n,
            Err(e) => return Err(e),
        };
        if nav == 0 {
            storage.last_fee_accrual = now;
            return Ok(0);
        }
        proof {
            lemma_as_u128(nav);
        }
        let nav_u: u128 = nav as u128;
        let fee_bps: u128 = storage.config.management_fee_bps as u128;
        let product: u128 = nav_u.checked_mul(fee_bps).unwrap_or(0).checked_mul(elapsed as u128).unwrap_or(
            0,
        );
        let fee_amount: u128 = product / (BPS as u128) / (SECONDS_PER_YEAR as u128);
        assert(fee_amount <= i128::MAX) by (nonlinear_arith)
            requires
                fee_amount == product / 10_000 / 31_536_000,
                product <= u128::MAX,
        ;
        let mut total_shares = storage.total_shares;
        let mut fee_shares: i128 = 0;
        if fee_amount > 0 && storage.total_shares > 0 {
            let sp = match Nav::share_price(nav, storage.total_shares) {
                Ok(p) => p,
                Err(e) => return Err(e),
            };
            let fee_i: i128 = fee_amount as i128;
            let scaled = match fee_i.checked_mul(SCALAR_7) {
                Some(x) => x,
                None => return Err(Error::ArithmeticError),
            };
            let shares = match scaled.checked_div(sp) {
                Some(x) => x,
                None => return Err(Error::ArithmeticError),
            };
            if shares > 0 {
                total_shares = match storage.total_shares.checked_add(shares) {
                    Some(t) => t,
                    None => return Err(Error::ArithmeticError),
                };
                fee_shares = shares;
            }
        }
        storage.total_shares = total_shares;
        storage.last_fee_accrual = now;
        Ok(fee_shares)
    }
}

// ─── Performance fee ──────────────────────────────────────────────────────────

/// Performance-fee application, given the NAV and share price that the vault's NAV
/// module reports (or the error it fails with): the new storage and the fee shares to
/// mint to the admin, or the error.
///
/// Nothing happens when the fee rate or the supply is zero, or the share price does
/// not exceed the high water mark. Otherwise
/// `gains = (share_price - HWM) × total_shares / SCALAR_7`,
/// `perf_fee = gains × performance_fee_bps / BPS`, the fee is minted as
/// `perf_fee × SCALAR_7 / share_price` shares, and the high water mark becomes the
/// share price. Any intermediate that leaves `i128` is an `ArithmeticError`.
pub open spec fn performance_spec(
    s: VaultStorage,
    nav: Result<i128, Error>,
    share_price: Result<i128, Error>,
) -> Result<(VaultStorage, int), Error> {
    if s.config.performance_fee_bps == 0 || s.total_shares == 0 {
        Ok((s, 0))
    } else {
        match nav {
            Err(e) => Err(e),
            Ok(_) => match share_price {
                Err(e) => Err(e),
                Ok(sp) => if sp <= s.high_water_mark {
                    Ok((s, 0))
                } else {
                    let above = sp - s.high_water_mark;
                    let raw_gains = above * s.total_shares;
                    if !fits_i128(above) || !fits_i128(raw_gains) {
                        Err(Error::ArithmeticError)
                    } else {
                        let gains = tdiv(raw_gains, 10_000_000);
                        let raw_fee = gains * s.config.performance_fee_bps;
                        if !fits_i128(raw_fee) {
                            Err(Error::ArithmeticError)
                        } else {
                            let perf_fee = tdiv(raw_fee, 10_000);
                            let marked = VaultStorage { high_water_mark: sp, ..s };
                            if perf_fee > 0 {
                                let x = perf_fee * 10_000_000;
                                if !fits_i128(x) || sp == 0 || !fits_i128(tdiv(x, sp as int)) {
                                    Err(Error::ArithmeticError)
                                } else {
                                    let fee_shares = tdiv(x, sp as int);
                                    if fee_shares > 0 {
                                        if fits_i128(s.total_shares + fee_shares) {
                                            Ok(
                                                (
                                                    VaultStorage {
                                                        total_shares: (s.total_shares
                                                            + fee_shares) as i128,
                                                        high_water_mark: sp,
                                                        ..s
                                                    },
                                                    fee_shares,
                                                ),
                                            )
                                        } else {
                                            Err(Error::ArithmeticError)
                                        }
                                    } else {
                                        Ok((marked, 0))
                                    }
                                }
                            } else {
                                Ok((marked, 0))
                            }
                        }
                    }
                },
            },
        }
    }
}

impl Harvester {
    /// Apply performance fee when share_price exceeds the high_water_mark.
    /// Mints new shares to admin for the fee amount (returned), and moves the high
    /// water mark to the share price. The NAV is the liquid reserve plus `balances`,
    /// the `a_balance` of each active protocol in order (only read when
    /// `performance_needs_nav`), and the share price is `Nav::share_price` of it.
    /// The new high water mark is the share price measured before the fee shares are
    /// minted, not the diluted price after them: the next fee is charged only on gains
    /// above the price that this one was charged at. On an error the storage is
    /// unchanged.
    pub fn apply_performance_fee(storage: &mut VaultStorage, balances: &Vec<i128>) -> (r: Result<
        i128,
        Error,
    >)
        ensures
            match performance_spec(
                *old(storage),
                nav_result(old(storage).liquid_reserve as int, balances@),
                price_result(
                    old(storage).liquid_reserve as int,
                    balances@,
                    old(storage).total_shares as int,
                ),
            ) {
                Ok((s, f)) => r == Ok::<i128, Error>(f as i128) && *final(storage) == s,
                Err(e) => r == Err::<i128, Error>(e) && *final(storage) == *old(storage),
            },
    {
        if storage.config.performance_fee_bps == 0 || storage.total_shares == 0 {
            return Ok(0);
        }
        let nav = match Nav::calculate(storage.liquid_reserve, balances) {
            Ok(n) => n,
            Err(e) => return Err(e),
        };
        let share_price = match Nav::share_price(nav, storage.total_shares) {
            Ok(p) => p,
            Err(e) => return Err(e),
        };
        if share_price <= storage.high_water_mark {
            return Ok(0);
        }
        let above = match share_price.checked_sub(storage.high_water_mark) {
            Some(x) => x,
            None => return Err(Error::ArithmeticError),
        };
        let raw_gains = match above.checked_mul(storage.total_shares) {
            Some(x) => x,
            None => return Err(Error::ArithmeticError),
        };
        let gains = match raw_gains.checked_div(SCALAR_7) {
            Some(x) => x,
            None => return Err(Error::ArithmeticError),
        };
        let raw_fee = match gains.checked_mul(storage.config.performance_fee_bps as i128) {
            Some(x) => x,
            None => return Err(Error::ArithmeticError),
        };
        let perf_fee = match raw_fee.checked_div(BPS) {
            Some(x) => x,
            None => return Err(Error::ArithmeticError),
        };
        let mut total_shares = storage.total_shares;
        let mut fee_shares: i128 = 0;
        if perf_fee > 0 {
            let scaled = match perf_fee.checked_mul(SCALAR_7) {
                Some(x) => x,
                None => return Err(Error::ArithmeticError),
            };
            let shares = match scaled.checked_div(share_price) {
                Some(x) => x,
                None => return Err(Error::ArithmeticError),
            };
            if shares > 0 {
                total_shares = match storage.total_shares.checked_add(shares) {
                    Some(t) => t,
                    None => return Err(Error::ArithmeticError),
                };
                fee_shares = shares;
            }
        }
        storage.total_shares = total_shares;
        storage.high_water_mark = share_price;
        Ok(fee_shares)
    }
}

// ─── Completing a harvest ─────────────────────────────────────────────────────

/// The end of a harvest that collected `total`: the total is added to the liquid
/// reserve (`ArithmeticError` on overflow), then the management fee accrues.
pub open spec fn harvest_finish_spec(
    s: VaultStorage,
    total: int,
    now: u64,
    nav: Result<i128, Error>,
    share_price: Result<i128, Error>,
) -> Result<(VaultStorage, int), Error> {
    if !fits_i128(s.liquid_reserve + total) {
        Err(Error::ArithmeticError)
    } else {
        accrual_spec(
            VaultStorage { liquid_reserve: (s.liquid_reserve + total) as i128, ..s },
            now,
            nav,
            share_price,
        )
    }
}

impl HarvestRun {
    /// Completes the harvest: harvested rewards go to the liquid reserve, and the
    /// management fee accrues on the NAV that includes them, computed from the new
    /// liquid reserve and `balances`, the `a_balance` of each active protocol in order
    /// (only read when `accrual_needs_nav`). Returns the fee shares to mint and the
    /// event to publish; on an error the storage is unchanged.
    pub fn finish(&self, storage: &mut VaultStorage, now: u64, balances: &Vec<i128>) -> (r: Result<
        HarvestOutcome,
        Error,
    >)
        ensures
            match harvest_finish_spec(
                *old(storage),
                self.total_harvested as int,
                now,
                nav_result(old(storage).liquid_reserve + self.total_harvested, balances@),
                price_result(
                    old(storage).liquid_reserve + self.total_harvested,
                    balances@,
                    old(storage).total_shares as int,
                ),
            ) {
                Ok((s, f)) => r == Ok::<HarvestOutcome, Error>(
                    HarvestOutcome {
                        fee_shares: f as i128,
                        event: HarvestedEvent { total: self.total_harvested },
                    },
                ) && *final(storage) == s,
                Err(e) => r == Err::<HarvestOutcome, Error>(e) && *final(storage) == *old(storage),
            },
    {
        let liquid_reserve = match storage.liquid_reserve.checked_add(self.total_harvested) {
            Some(x) => x,
            None => return Err(Error::ArithmeticError),
        };
        let mut next = *storage;
        next.liquid_reserve = liquid_reserve;
        match Harvester::accrue_management_fee(&mut next, now, balances) {
            Ok(fee_shares) => {
                *storage = next;
                Ok(
                    HarvestOutcome {
                        fee_shares,
                        event: HarvestedEvent { total: self.total_harvested },
                    },
                )
            },
            Err(e) => Err(e),
        }
    }
}

// ─── When the NAV is needed ───────────────────────────────────────────────────

/// The management fee consults the NAV only when time has passed since the last
/// accrual and the fee rate is not zero.
pub open spec fn accrual_needs_nav(s: VaultStorage, now: u64) -> bool {
    elapsed_spec(now, s.last_fee_accrual) != 0 && s.config.management_fee_bps != 0
}

/// The performance fee consults the NAV only when its rate and the share supply are
/// not zero.
pub open spec fn performance_needs_nav(s: VaultStorage) -> bool {
    s.config.performance_fee_bps != 0 && s.total_shares != 0
}

impl Harvester {
    /// Whether the management-fee accrual at `now` needs the NAV; when it does not,
    /// the NAV (an outside call per protocol) need not be computed.
    pub fn accrual_needs_nav(storage: &VaultStorage, now: u64) -> (r: bool)
        ensures
            r == accrual_needs_nav(*storage, now),
    {
        now.saturating_sub(storage.last_fee_accrual) != 0 && storage.config.management_fee_bps != 0
    }

    /// Whether applying the performance fee needs the NAV.
    pub fn performance_needs_nav(storage: &VaultStorage) -> (r: bool)
        ensures
            r == performance_needs_nav(*storage),
    {
        storage.config.performance_fee_bps != 0 && storage.total_shares != 0
    }
}

/// When the accrual does not need the NAV, it is the same whatever NAV and share price
/// are passed.
pub proof fn lemma_accrual_ignores_nav(
    s: VaultStorage,
    now: u64,
    nav: Result<i128, Error>,
    share_price: Result<i128, Error>,
    nav2: Result<i128, Error>,
    share_price2: Result<i128, Error>,
)
    requires
        !accrual_needs_nav(s, now),
    ensures
        accrual_spec(s, now, nav, share_price) == accrual_spec(s, now, nav2, share_price2),
        accrual_spec(s, now, nav, share_price) == Ok::<(VaultStorage, int), Error>((s, 0)),
{
}

/// When the performance fee does not need the NAV, it is the same whatever NAV and
/// share price are passed, and changes nothing.
pub proof fn lemma_performance_ignores_nav(
    s: VaultStorage,
    nav: Result<i128, Error>,
    share_price: Result<i128, Error>,
    nav2: Result<i128, Error>,
    share_price2: Result<i128, Error>,
)
    requires
        !performance_needs_nav(s),
    ensures
        performance_spec(s, nav, share_price) == performance_spec(s, nav2, share_price2),
        performance_spec(s, nav, share_price) == Ok::<(VaultStorage, int), Error>((s, 0)),
{
}

// ─── Laws on the amounts ──────────────────────────────────────────────────────

/// The reward swap's floor is the expected amount reduced by the tolerance, rounded
/// down, for every tolerance of at most 100%:
/// `m·10_000 ≤ expected·(10_000 − bps) < (m + 1)·10_000`.
pub proof fn lemma_swap_floor_exact(expected_out: int, max_slippage_bps: int)
    requires
        expected_out >= 0,
        0 <= max_slippage_bps <= 10_000,
        fits_i128(expected_out * (10_000 - max_slippage_bps)),
    ensures
        swap_floor_spec(expected_out, max_slippage_bps) is Ok,
        (swap_floor_spec(expected_out, max_slippage_bps)->Ok_0) * 10_000 <= expected_out * (10_000
            - max_slippage_bps) < ((swap_floor_spec(expected_out, max_slippage_bps)->Ok_0) + 1)
            * 10_000,
{
    let p = expected_out * (10_000 - max_slippage_bps);
    assert(p >= 0) by (nonlinear_arith)
        requires
            expected_out >= 0,
            max_slippage_bps <= 10_000,
            p == expected_out * (10_000 - max_slippage_bps),
    ;
    vstd::arithmetic::div_mod::lemma_fundamental_div_mod(p, 10_000);
    vstd::arithmetic::div_mod::lemma_mod_pos_bound(p, 10_000);
}

/// The estimate step of a reward swap: when the router's estimate came back, the swap
/// is sent with `min_amount_out = m` where `m·10_000 ≤ e·(10_000 − bps) < (m + 1)·10_000`
/// for the last estimated amount `e`; when it did not, no swap is made.
pub proof fn lemma_estimate_step_floor(limits: HarvestLimits, amounts_out: Seq<i128>)
    requires
        limits.max_slippage_bps <= 10_000,
        amounts_out.len() > 0,
        amounts_out[amounts_out.len() - 1] >= 0,
        fits_i128(amounts_out[amounts_out.len() - 1] * (10_000 - limits.max_slippage_bps)),
    ensures
        estimate_step_spec(limits, None) == Ok::<Option<i128>, Error>(None),
        estimate_step_spec(limits, Some(amounts_out)) is Ok,
        (estimate_step_spec(limits, Some(amounts_out))->Ok_0) is Some,
        ({
            let m = (estimate_step_spec(limits, Some(amounts_out))->Ok_0)->0;
            let e = amounts_out[amounts_out.len() - 1];
            m * 10_000 <= e * (10_000 - limits.max_slippage_bps) < (m + 1) * 10_000
        }),
{
    let e = amounts_out[amounts_out.len() - 1];
    assert(received_spec(amounts_out) == e);
    lemma_swap_floor_exact(e as int, limits.max_slippage_bps as int);
}

/// The management fee is pro rata of the time elapsed: without overflow,
/// `fee·BPS·SECONDS_PER_YEAR ≤ nav·fee_bps·elapsed < (fee + 1)·BPS·SECONDS_PER_YEAR`,
/// so one day's accrual is about 1/365 of a year's.
pub proof fn lemma_management_fee_prorata(nav: int, fee_bps: int, elapsed: int)
    requires
        nav >= 0,
        fee_bps >= 0,
        elapsed >= 0,
        nav * fee_bps * elapsed <= u128::MAX,
    ensures
        management_fee_spec(nav, fee_bps, elapsed) * 315_360_000_000 <= nav * fee_bps * elapsed
            < (management_fee_spec(nav, fee_bps, elapsed) + 1) * 315_360_000_000,
{
    let x = nav * fee_bps * elapsed;
    assert(nav * fee_bps >= 0 && x >= 0) by (nonlinear_arith)
        requires
            nav >= 0,
            fee_bps >= 0,
            elapsed >= 0,
            x == nav * fee_bps * elapsed,
    ;
    if elapsed >= 1 {
        assert(nav * fee_bps <= x) by (nonlinear_arith)
            requires
                nav * fee_bps >= 0,
                elapsed >= 1,
                x == nav * fee_bps * elapsed,
        ;
    }
    let p1 = if nav * fee_bps <= u128::MAX {
        nav * fee_bps
    } else {
        0
    };
    assert(p1 * elapsed == x) by (nonlinear_arith)
        requires
            elapsed >= 1 ==> p1 == nav * fee_bps,
            elapsed >= 0,
            x == nav * fee_bps * elapsed,
    ;
    vstd::arithmetic::div_mod::lemma_div_denominator(x, 10_000, 31_536_000);
    vstd::arithmetic::div_mod::lemma_fundamental_div_mod(x, 315_360_000_000);
    vstd::arithmetic::div_mod::lemma_mod_pos_bound(x, 315_360_000_000);
}

/// Two floors of the same quotient are equal.
proof fn lemma_floor_unique(q1: int, q2: int, x: int, y: int)
    requires
        y > 0,
        q1 * y <= x < (q1 + 1) * y,
        q2 * y <= x < (q2 + 1) * y,
    ensures
        q1 == q2,
{
    if q1 < q2 {
        assert((q1 + 1) * y <= q2 * y) by (nonlinear_arith)
            requires
                q1 + 1 <= q2,
                y > 0,
        ;
    }
    if q2 < q1 {
        assert((q2 + 1) * y <= q1 * y) by (nonlinear_arith)
            requires
                q2 + 1 <= q1,
                y > 0,
        ;
    }
}

/// The management fee accrued at `now` mints
/// `fee × SCALAR_7 / share_price` shares (rounded down), where
/// `fee = nav × fee_bps × (now − last_fee_accrual) / BPS / SECONDS_PER_YEAR`, and
/// moves the accrual time to `now`, leaving the reserve, the high water mark and the
/// configuration as they are.
pub proof fn lemma_accrual_fee_shares(s: VaultStorage, now: u64, nav: i128, share_price: i128)
    requires
        now > s.last_fee_accrual,
        s.config.management_fee_bps != 0,
        nav > 0,
        s.total_shares > 0,
        share_price > 0,
        nav * s.config.management_fee_bps * (now - s.last_fee_accrual) <= u128::MAX,
        accrual_spec(s, now, Ok(nav), Ok(share_price)) is Ok,
    ensures
        ({
            let (s1, minted) = accrual_spec(s, now, Ok(nav), Ok(share_price))->Ok_0;
            let fee = (nav * s.config.management_fee_bps * (now - s.last_fee_accrual))
                / 315_360_000_000;
            &&& minted == (fee * 10_000_000) / (share_price as int)
            &&& s1.total_shares == s.total_shares + minted
            &&& s1.last_fee_accrual == now
            &&& s1.liquid_reserve == s.liquid_reserve
            &&& s1.high_water_mark == s.high_water_mark
            &&& s1.config == s.config
            &&& s1.status == s.status
        }),
{
    let bps = s.config.management_fee_bps as int;
    let elapsed = now - s.last_fee_accrual;
    let x = nav * bps * elapsed;
    lemma_management_fee_prorata(nav as int, bps, elapsed);
    let mfs = management_fee_spec(nav as int, bps, elapsed);
    assert(x >= 0) by (nonlinear_arith)
        requires
            nav > 0,
            bps >= 0,
            elapsed >= 0,
            x == nav * bps * elapsed,
    ;
    vstd::arithmetic::div_mod::lemma_fundamental_div_mod(x, 315_360_000_000);
    vstd::arithmetic::div_mod::lemma_mod_pos_bound(x, 315_360_000_000);
    let fee = x / 315_360_000_000;
    lemma_floor_unique(mfs, fee, x, 315_360_000_000);
    assert(fee >= 0);
    assert(fee * 10_000_000 >= 0) by (nonlinear_arith)
        requires
            fee >= 0,
    ;
}

/// The performance fee is charged on the gains above the high water mark only: for a
/// share price `P` above the mark `H`, the fee is
/// `((P − H) × total_shares / SCALAR_7) × performance_fee_bps / BPS` (each step rounded
/// down), `fee × SCALAR_7 / P` shares are minted, and the mark moves to `P`.
pub proof fn lemma_performance_fee_charged(s: VaultStorage, nav: i128, share_price: i128)
    requires
        s.config.performance_fee_bps != 0,
        s.total_shares > 0,
        s.high_water_mark >= 0,
        share_price > s.high_water_mark,
        performance_spec(s, Ok(nav), Ok(share_price)) is Ok,
    ensures
        ({
            let (s1, minted) = performance_spec(s, Ok(nav), Ok(share_price))->Ok_0;
            let gains = ((share_price - s.high_water_mark) * s.total_shares) / 10_000_000;
            let fee = (gains * s.config.performance_fee_bps) / 10_000;
            &&& minted == (fee * 10_000_000) / (share_price as int)
            &&& s1.total_shares == s.total_shares + minted
            &&& s1.high_water_mark == share_price
            &&& s1.liquid_reserve == s.liquid_reserve
            &&& s1.last_fee_accrual == s.last_fee_accrual
            &&& s1.config == s.config
            &&& s1.status == s.status
        }),
{
    let above = share_price - s.high_water_mark;
    let raw = above * s.total_shares;
    assert(raw > 0) by (nonlinear_arith)
        requires
            above > 0,
            s.total_shares > 0,
            raw == above * s.total_shares,
    ;
    let gains = raw / 10_000_000;
    assert(gains >= 0);
    let raw_fee = gains * s.config.performance_fee_bps;
    assert(raw_fee >= 0) by (nonlinear_arith)
        requires
            gains >= 0,
            s.config.performance_fee_bps >= 0,
            raw_fee == gains * s.config.performance_fee_bps,
    ;
    let fee = raw_fee / 10_000;
    assert(fee * 10_000_000 >= 0) by (nonlinear_arith)
        requires
            fee >= 0,
    ;
}

/// At or below the high water mark no performance fee is charged and nothing changes.
pub proof fn lemma_performance_fee_none_at_or_below_mark(s: VaultStorage, nav: i128, share_price: i128)
    requires
        share_price <= s.high_water_mark,
    ensures
        performance_spec(s, Ok(nav), Ok(share_price)) == Ok::<(VaultStorage, int), Error>((s, 0)),
{
}

// ─── Laws ─────────────────────────────────────────────────────────────────────

/// Fee accrual is idempotent at a fixed time: once the management fee has accrued at
/// `now`, accruing again at `now` mints nothing and changes nothing, whatever NAV and
/// share price are reported.
pub proof fn lemma_accrual_idempotent(
    s: VaultStorage,
    now: u64,
    nav: Result<i128, Error>,
    share_price: Result<i128, Error>,
    nav2: Result<i128, Error>,
    share_price2: Result<i128, Error>,
)
    requires
        accrual_spec(s, now, nav, share_price) is Ok,
    ensures
        ({
            let s1 = (accrual_spec(s, now, nav, share_price)->Ok_0).0;
            accrual_spec(s1, now, nav2, share_price2) == Ok::<(VaultStorage, int), Error>((s1, 0))
        }),
{
}

/// Fee accrual only mints: it never lowers the share supply, never touches the liquid
/// reserve, the high water mark or the configuration, and mints a non-negative number
/// of shares.
pub proof fn lemma_accrual_only_mints(
    s: VaultStorage,
    now: u64,
    nav: Result<i128, Error>,
    share_price: Result<i128, Error>,
)
    requires
        accrual_spec(s, now, nav, share_price) is Ok,
    ensures
        ({
            let (s1, f) = accrual_spec(s, now, nav, share_price)->Ok_0;
            &&& f >= 0
            &&& s1.total_shares == s.total_shares + f
            &&& s1.liquid_reserve == s.liquid_reserve
            &&& s1.high_water_mark == s.high_water_mark
            &&& s1.config == s.config
            &&& s1.status == s.status
        }),
{
}

/// The high water mark never decreases, and a performance fee is charged only on a
/// share price above it.
pub proof fn lemma_high_water_mark_monotone(
    s: VaultStorage,
    nav: Result<i128, Error>,
    share_price: Result<i128, Error>,
)
    requires
        performance_spec(s, nav, share_price) is Ok,
    ensures
        ({
            let (s1, f) = performance_spec(s, nav, share_price)->Ok_0;
            &&& s1.high_water_mark >= s.high_water_mark
            &&& f >= 0
            &&& f > 0 ==> share_price is Ok && share_price->Ok_0 > s.high_water_mark
            &&& s1.total_shares == s.total_shares + f
            &&& s1.liquid_reserve == s.liquid_reserve
            &&& s1.last_fee_accrual == s.last_fee_accrual
        }),
{
}

/// Once a performance fee has been applied at a share price, applying it again at
/// the same share price charges nothing.
pub proof fn lemma_performance_fee_once_per_price(
    s: VaultStorage,
    nav: Result<i128, Error>,
    share_price: Result<i128, Error>,
    nav2: Result<i128, Error>,
)
    requires
        performance_spec(s, nav, share_price) is Ok,
        nav2 is Ok,
    ensures
        ({
            let s1 = (performance_spec(s, nav, share_price)->Ok_0).0;
            performance_spec(s1, nav2, share_price) == Ok::<(VaultStorage, int), Error>((s1, 0))
        }),
{
}

/// A completed harvest adds exactly the harvested total to the liquid reserve.
pub proof fn lemma_harvest_credits_reserve(
    s: VaultStorage,
    total: int,
    now: u64,
    nav: Result<i128, Error>,
    share_price: Result<i128, Error>,
)
    requires
        harvest_finish_spec(s, total, now, nav, share_price) is Ok,
    ensures
        (harvest_finish_spec(s, total, now, nav, share_price)->Ok_0).0.liquid_reserve == s.liquid_reserve
            + total,
{
}

} // verus!
