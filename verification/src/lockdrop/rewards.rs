//! The rewards of lockup positions: the one-time NTRN incentives, the
//! generator's staking rewards shared per LP token, and the liquidity a
//! position holds in the pool.
use crate::lockdrop::math::{
    calculate_astro_incentives_for_lockup, calculate_weight, coefficients_fit, find_rewards_info,
    incentives_fit, lockup_incentives, weight_of,
};
use crate::lockdrop::types::{
    Config, LockUpInfoResponse, LockdropError, LockupInfo, PoolInfo, PoolType, State, UserInfo,
};
use crate::numeric::{decimal_fractional, u128_to_decimal, u128_full_mul, u256_checked_div, u256_try_into_u128, Dec, U256};
use crate::vesting::types::AssetInfo;
use vstd::prelude::*;

verus! {

/// The LP tokens a position of `lp_units_locked` holds out of a pool balance
/// of `balance` shared by `amount_in_lockups` locked units, floored.
pub open spec fn lp_share(lp_units_locked: u128, balance: u128, amount_in_lockups: u128) -> int {
    (lp_units_locked * balance) / (amount_in_lockups as int)
}

/// The position's part of the pool's LP balance:
/// `lp_units_locked * balance / amount_in_lockups`, floored; an error when
/// nothing is locked in the pool or the share does not fit in 128 bits.
pub fn lockup_lp_share(lp_units_locked: u128, balance: u128, amount_in_lockups: u128) -> (r: Result<
    u128,
    LockdropError,
>)
    ensures
        amount_in_lockups == 0 ==> r == Err::<u128, LockdropError>(LockdropError::DivideByZero),
        amount_in_lockups != 0 ==> (if lp_share(lp_units_locked, balance, amount_in_lockups)
            <= u128::MAX {
            r == Ok::<u128, LockdropError>(
                lp_share(lp_units_locked, balance, amount_in_lockups) as u128,
            )
        } else {
            r == Err::<u128, LockdropError>(LockdropError::Overflow)
        }),
{
    let product = u128_full_mul(lp_units_locked, balance);
    let quotient = match u256_checked_div(product, U256::from_u128(amount_in_lockups)) {
        Some(q) => q,
        None => {
            return Err(LockdropError::DivideByZero);
        },
    };
    match u256_try_into_u128(quotient) {
        Some(v) => Ok(v),
        None => Err(LockdropError::Overflow),
    }
}

/// The one-time NTRN reward of a position: the one already recorded, else
/// its weight's share of the pool's incentives.
pub open spec fn position_reward(
    config: Config,
    state: State,
    pool: PoolInfo,
    lockup: LockupInfo,
    duration: u64,
) -> Result<u128, LockdropError> {
    if lockup.ntrn_rewards != 0 {
        Ok(lockup.ntrn_rewards)
    } else {
        match find_rewards_info(config.lockup_rewards_info@, duration) {
            None => Err(LockdropError::InvalidDuration),
            Some(info) => {
                let w = weight_of(lockup.lp_units_locked, info.coefficient);
                if w > u128::MAX {
                    Err(LockdropError::Overflow)
                } else {
                    lockup_incentives(
                        w as nat,
                        pool.weighted_amount.value(),
                        pool.incentives_share,
                        state.total_incentives_share,
                        config.lockdrop_incentives,
                    )
                }
            },
        }
    }
}

/// The ratio of a position's incentives fits in 256 bits, for the weight its
/// duration gives it.
pub open spec fn position_fits(
    config: Config,
    state: State,
    pool: PoolInfo,
    lockup: LockupInfo,
    duration: u64,
) -> bool {
    find_rewards_info(config.lockup_rewards_info@, duration) matches Some(info) ==> incentives_fit(
        weight_of(lockup.lp_units_locked, info.coefficient) as nat,
        pool.weighted_amount.value(),
        pool.incentives_share as nat,
        state.total_incentives_share as nat,
    )
}

/// The one-time NTRN reward of a position: the recorded one, or, while none
/// is recorded, the one its weight earns.
pub fn lockup_position_reward(
    config: &Config,
    state: &State,
    pool: &PoolInfo,
    lockup: &LockupInfo,
    duration: u64,
) -> (r: Result<u128, LockdropError>)
    requires
        coefficients_fit(config.lockup_rewards_info@),
        position_fits(*config, *state, *pool, *lockup, duration),
    ensures
        r == position_reward(*config, *state, *pool, *lockup, duration),
{
    if lockup.ntrn_rewards != 0 {
        return Ok(lockup.ntrn_rewards);
    }
    let weight = match calculate_weight(lockup.lp_units_locked, duration, config) {
        Ok(w) => w,
        Err(e) => {
            return Err(e);
        },
    };
    calculate_astro_incentives_for_lockup(
        weight,
        pool.weighted_amount,
        pool.incentives_share,
        state.total_incentives_share,
        config.lockdrop_incentives,
    )
}

/// The rewards of the positions in order and their total, or the first
/// error: a position's own, or an overflow of the running total.
pub open spec fn positions_rewards(
    config: Config,
    state: State,
    positions: Seq<(PoolInfo, LockupInfo, u64)>,
) -> Result<(int, Seq<u128>), LockdropError>
    decreases positions.len(),
{
    if positions.len() == 0 {
        Ok((0, Seq::empty()))
    } else {
        match positions_rewards(config, state, positions.drop_last()) {
            Err(e) => Err(e),
            Ok((total, rewards)) => {
                let last = positions.last();
                match position_reward(config, state, last.0, last.1, last.2) {
                    Err(e) => Err(e),
                    Ok(r) => if total + r > u128::MAX {
                        Err(LockdropError::Overflow)
                    } else {
                        Ok((total + r, rewards.push(r)))
                    },
                }
            },
        }
    }
}

/// Calculates NTRN rewards for each of the user's positions, each given with
/// its pool and duration in key order, and their total. The app records the
/// reward of each position that had none.
pub fn update_user_lockup_positions_and_calc_rewards(
    config: &Config,
    state: &State,
    positions: &Vec<(PoolInfo, LockupInfo, u64)>,
) -> (r: Result<(u128, Vec<u128>), LockdropError>)
    requires
        coefficients_fit(config.lockup_rewards_info@),
        forall|i: int|
            0 <= i < positions@.len() ==> #[trigger] position_fits(
                *config,
                *state,
                positions@[i].0,
                positions@[i].1,
                positions@[i].2,
            ),
    ensures
        r is Ok <==> positions_rewards(*config, *state, positions@) is Ok,
        r matches Ok((total, rewards)) ==> positions_rewards(*config, *state, positions@) == Ok::<
            (int, Seq<u128>),
            LockdropError,
        >((total as int, rewards@)),
        r matches Err(e) ==> positions_rewards(*config, *state, positions@) == Err::<
            (int, Seq<u128>),
            LockdropError,
        >(e),
{
    let mut total: u128 = 0;
    let mut rewards: Vec<u128> = Vec::new();
    let mut i: usize = 0;
    proof {
        assert(positions@.take(0) =~= Seq::<(PoolInfo, LockupInfo, u64)>::empty());
    }
    while i < positions.len()
        invariant
            i <= positions@.len(),
            coefficients_fit(config.lockup_rewards_info@),
            forall|j: int|
                0 <= j < positions@.len() ==> #[trigger] position_fits(
                    *config,
                    *state,
                    positions@[j].0,
                    positions@[j].1,
                    positions@[j].2,
                ),
            positions_rewards(*config, *state, positions@.take(i as int)) == Ok::<
                (int, Seq<u128>),
                LockdropError,
            >((total as int, rewards@)),
        decreases positions@.len() - i,
    {
        proof {
            assert(positions@.take(i + 1).drop_last() =~= positions@.take(i as int));
            assert(positions@.take(i + 1).last() == positions@[i as int]);
            assert(position_fits(
                *config,
                *state,
                positions@[i as int].0,
                positions@[i as int].1,
                positions@[i as int].2,
            ));
        }
        let reward = match lockup_position_reward(
            config,
            state,
            &positions[i].0,
            &positions[i].1,
            positions[i].2,
        ) {
            Ok(v) => v,
            Err(e) => {
                proof {
                    lemma_positions_rewards_error_stays(*config, *state, positions@, i + 1);
                }
                return Err(e);
            },
        };
        total = match total.checked_add(reward) {
            Some(t) => t,
            None => {
                proof {
                    lemma_positions_rewards_error_stays(*config, *state, positions@, i + 1);
                }
                return Err(LockdropError::Overflow);
            },
        };
        rewards.push(reward);
        i = i + 1;
    }
    proof {
        assert(positions@.take(i as int) =~= positions@);
    }
    Ok((total, rewards))
}

/// Once the rewards of a prefix of the positions fail, those of every longer
/// prefix fail the same way.
proof fn lemma_positions_rewards_error_stays(
    config: Config,
    state: State,
    positions: Seq<(PoolInfo, LockupInfo, u64)>,
    n: int,
)
    requires
        0 <= n <= positions.len(),
        positions_rewards(config, state, positions.take(n)) is Err,
    ensures
        positions_rewards(config, state, positions) == positions_rewards(
            config,
            state,
            positions.take(n),
        ),
    decreases positions.len() - n,
{
    if n < positions.len() {
        assert(positions.take(n + 1).drop_last() =~= positions.take(n));
        lemma_positions_rewards_error_stays(config, state, positions, n + 1);
    } else {
        assert(positions.take(n) =~= positions);
    }
}

} // verus!

verus! {

/// What claiming a position's rewards leads to, once the checks passed.
#[derive(Debug)]
pub struct ClaimPlan {
    /// The user, with the total of the one-time rewards computed where none was
    pub user: UserInfo,
    /// The reward of each of the user's positions, where the total was computed now
    pub position_rewards: Option<Vec<u128>>,
    /// Whether the generator's pending rewards are to be looked at, and
    /// claimed where there are any, before the position is paid out
    pub check_generator: bool,
}

/// The error, if any, that a claim on a position reports, given the user's
/// total after it was computed where needed.
pub open spec fn claim_error(
    config: Config,
    now: u64,
    user: UserInfo,
    lockup: Option<LockupInfo>,
    pool_is_staked: bool,
    withdraw_lp_stake: bool,
) -> Option<LockdropError> {
    if lockup is None {
        Some(LockdropError::NotFound)
    } else if withdraw_lp_stake && now < lockup.unwrap().unlock_timestamp {
        Some(LockdropError::SecondsToUnlock((lockup.unwrap().unlock_timestamp - now) as u64))
    } else if lockup.unwrap().astroport_lp_transferred is Some {
        Some(LockdropError::LpAlreadyClaimed)
    } else if pool_is_staked && config.generator is None {
        Some(LockdropError::GeneratorNotSet)
    } else if !pool_is_staked && user.ntrn_transferred && !withdraw_lp_stake {
        Some(LockdropError::NoRewardsToClaim)
    } else {
        None
    }
}

/// Claims the rewards of a position and, with `withdraw_lp_stake`, unlocks
/// it, once the withdrawal window closed. The user's one-time rewards are
/// computed first where none are recorded, over all of the user's
/// `positions`; `lockup` is the position claimed, if it exists.
pub fn handle_claim_rewards_and_unlock_for_lockup(
    config: &Config,
    state: &State,
    now: u64,
    user: UserInfo,
    positions: &Vec<(PoolInfo, LockupInfo, u64)>,
    lockup: Option<LockupInfo>,
    pool_is_staked: bool,
    withdraw_lp_stake: bool,
) -> (r: Result<ClaimPlan, LockdropError>)
    requires
        coefficients_fit(config.lockup_rewards_info@),
        forall|i: int|
            0 <= i < positions@.len() ==> #[trigger] position_fits(
                *config,
                *state,
                positions@[i].0,
                positions@[i].1,
                positions@[i].2,
            ),
        config.init_timestamp + config.lock_window + config.withdrawal_window <= u64::MAX,
    ensures
        now < config.init_timestamp + config.lock_window + config.withdrawal_window ==> r == Err::<
            ClaimPlan,
            LockdropError,
        >(LockdropError::WindowStillOpen),
        now >= config.init_timestamp + config.lock_window + config.withdrawal_window ==> {
            if user.total_ntrn_rewards == 0 && positions_rewards(*config, *state, positions@) is Err {
                r == Err::<ClaimPlan, LockdropError>(
                    positions_rewards(*config, *state, positions@)->Err_0,
                )
            } else {
                let u = if user.total_ntrn_rewards == 0 {
                    UserInfo {
                        total_ntrn_rewards: positions_rewards(*config, *state, positions@)->Ok_0.0 as u128,
                        ..user
                    }
                } else {
                    user
                };
                match claim_error(*config, now, u, lockup, pool_is_staked, withdraw_lp_stake) {
                    Some(e) => r == Err::<ClaimPlan, LockdropError>(e),
                    None => r matches Ok(plan) && plan.user == u && plan.check_generator
                        == pool_is_staked && (match plan.position_rewards {
                        Some(rs) => user.total_ntrn_rewards == 0 && rs@ == positions_rewards(
                            *config,
                            *state,
                            positions@,
                        )->Ok_0.1,
                        None => user.total_ntrn_rewards != 0,
                    }),
                }
            }
        },
{
    if now < config.init_timestamp + config.lock_window + config.withdrawal_window {
        return Err(LockdropError::WindowStillOpen);
    }
    let mut user = user;
    let mut position_rewards: Option<Vec<u128>> = None;
    if user.total_ntrn_rewards == 0 {
        match update_user_lockup_positions_and_calc_rewards(config, state, positions) {
            Ok((total, rewards)) => {
                user.total_ntrn_rewards = total;
                position_rewards = Some(rewards);
            },
            Err(e) => {
                return Err(e);
            },
        }
    }
    let lockup = match lockup {
        Some(li) => li,
        None => {
            return Err(LockdropError::NotFound);
        },
    };
    if withdraw_lp_stake && now < lockup.unlock_timestamp {
        return Err(LockdropError::SecondsToUnlock(lockup.unlock_timestamp - now));
    }
    if lockup.astroport_lp_transferred.is_some() {
        return Err(LockdropError::LpAlreadyClaimed);
    }
    if pool_is_staked {
        if config.generator.is_none() {
            return Err(LockdropError::GeneratorNotSet);
        }
    } else if user.ntrn_transferred && !withdraw_lp_stake {
        return Err(LockdropError::NoRewardsToClaim);
    }
    Ok(ClaimPlan { user, position_rewards, check_generator: pool_is_staked })
}

/// What a claim on a position sends, in order.
#[derive(Clone, Debug, PartialEq, Eq)]
pub enum ClaimAction {
    /// Claim the generator's pending rewards for the pool
    ClaimGeneratorRewards(PoolType),
    /// Then spread what the claim brought over the pool's LP tokens
    UpdatePoolOnDualRewardsClaim(PoolType),
    /// Last, pay out the position and, if asked, unlock it
    WithdrawUserLockupRewards { pool_type: PoolType, user_address: String, duration: u64, withdraw_lp_stake: bool },
}

/// The actions of a claim whose checks passed: where the generator is to be
/// looked at and holds pending rewards, its rewards are claimed and the pool
/// updated first; the position's payout always comes last.
pub fn claim_actions(
    plan: &ClaimPlan,
    rewards_pending: bool,
    pool_type: PoolType,
    user_address: String,
    duration: u64,
    withdraw_lp_stake: bool,
) -> (r: Vec<ClaimAction>)
    ensures
        (plan.check_generator && rewards_pending) ==> r@ == seq![
            ClaimAction::ClaimGeneratorRewards(pool_type),
            ClaimAction::UpdatePoolOnDualRewardsClaim(pool_type),
            ClaimAction::WithdrawUserLockupRewards { pool_type, user_address, duration, withdraw_lp_stake },
        ],
        !(plan.check_generator && rewards_pending) ==> r@ == seq![
            ClaimAction::WithdrawUserLockupRewards { pool_type, user_address, duration, withdraw_lp_stake },
        ],
{
    let mut actions: Vec<ClaimAction> = Vec::new();
    if plan.check_generator && rewards_pending {
        actions.push(ClaimAction::ClaimGeneratorRewards(pool_type));
        actions.push(ClaimAction::UpdatePoolOnDualRewardsClaim(pool_type));
    }
    actions.push(ClaimAction::WithdrawUserLockupRewards { pool_type, user_address, duration, withdraw_lp_stake });
    proof {
        if plan.check_generator && rewards_pending {
            assert(actions@ =~= seq![
                ClaimAction::ClaimGeneratorRewards(pool_type),
                ClaimAction::UpdatePoolOnDualRewardsClaim(pool_type),
                ClaimAction::WithdrawUserLockupRewards { pool_type, user_address, duration, withdraw_lp_stake },
            ]);
        } else {
            assert(actions@ =~= seq![
                ClaimAction::WithdrawUserLockupRewards { pool_type, user_address, duration, withdraw_lp_stake },
            ]);
        }
    }
    actions
}

/// Whether the generator holds rewards for the pool: base rewards, or any
/// proxy reward.
pub fn has_pending_rewards(pending: u128, pending_on_proxy: &Vec<u128>) -> (r: bool)
    ensures
        r == (pending != 0 || exists|i: int| 0 <= i < pending_on_proxy@.len() && #[trigger] pending_on_proxy@[i] != 0),
{
    if pending != 0 {
        return true;
    }
    let mut i: usize = 0;
    while i < pending_on_proxy.len()
        invariant
            i <= pending_on_proxy@.len(),
            pending == 0,
            forall|j: int| 0 <= j < i ==> #[trigger] pending_on_proxy@[j] == 0,
        decreases pending_on_proxy@.len() - i,
    {
        if pending_on_proxy[i] != 0 {
            return true;
        }
        i = i + 1;
    }
    false
}

} // verus!

verus! {

/// The generator's proxy rewards per LP token recorded for `asset`: the first
/// entry for it, else none.
pub open spec fn pps_of(pps: Seq<(AssetInfo, Dec)>, asset: AssetInfo) -> nat
    decreases pps.len(),
{
    if pps.len() == 0 {
        0
    } else if pps[0].0.same(asset) {
        pps[0].1.atomics as nat
    } else {
        pps_of(pps.drop_first(), asset)
    }
}

/// The proxy rewards per LP token recorded for `asset`, zero where none is.
pub fn proxy_per_share_of(pps: &Vec<(AssetInfo, Dec)>, asset: &AssetInfo) -> (r: Dec)
    ensures
        r.atomics == pps_of(pps@, *asset),
{
    let mut i: usize = 0;
    proof {
        assert(pps@.skip(0) =~= pps@);
    }
    while i < pps.len()
        invariant
            i <= pps@.len(),
            pps_of(pps@, *asset) == pps_of(pps@.skip(i as int), *asset),
        decreases pps@.len() - i,
    {
        if pps[i].0.equals(asset) {
            proof {
                assert(pps@.skip(i as int)[0] == pps@[i as int]);
            }
            return pps[i].1;
        }
        proof {
            assert(pps@.skip(i as int).drop_first() =~= pps@.skip(i + 1));
        }
        i = i + 1;
    }
    Dec::zero()
}

/// For each proxy reward asset a position has a debt in, in order: the new
/// debt, the position's LP share of the rewards per share; and the rewards
/// now owed, where there are any. An overflow where a share does not fit in
/// 128 bits or falls below the old debt.
pub open spec fn proxy_claims(
    pps: Seq<(AssetInfo, Dec)>,
    debts: Seq<(AssetInfo, u128)>,
    lp: u128,
) -> Result<(Seq<(AssetInfo, u128)>, Seq<(AssetInfo, u128)>), LockdropError>
    decreases debts.len(),
{
    if debts.len() == 0 {
        Ok((Seq::empty(), Seq::empty()))
    } else {
        match proxy_claims(pps, debts.drop_last(), lp) {
            Err(e) => Err(e),
            Ok((new_debts, pending)) => {
                let asset = debts.last().0;
                let debt = debts.last().1;
                let total = (lp * pps_of(pps, asset)) / decimal_fractional();
                if total > u128::MAX || debt > total {
                    Err(LockdropError::Overflow)
                } else if total - debt != 0 {
                    Ok((new_debts.push((asset, total as u128)), pending.push((asset, (total - debt) as u128))))
                } else {
                    Ok((new_debts.push((asset, total as u128)), pending))
                }
            },
        }
    }
}

proof fn lemma_proxy_claims_error_stays(
    pps: Seq<(AssetInfo, Dec)>,
    debts: Seq<(AssetInfo, u128)>,
    lp: u128,
    n: int,
)
    requires
        0 <= n <= debts.len(),
        proxy_claims(pps, debts.take(n), lp) is Err,
    ensures
        proxy_claims(pps, debts, lp) == proxy_claims(pps, debts.take(n), lp),
    decreases debts.len() - n,
{
    if n < debts.len() {
        assert(debts.take(n + 1).drop_last() =~= debts.take(n));
        lemma_proxy_claims_error_stays(pps, debts, lp, n + 1);
    } else {
        assert(debts.take(n) =~= debts);
    }
}

/// The new proxy debts of a position of `lp` LP tokens and the proxy rewards
/// it is owed, asset by asset in the order of its debts.
pub fn claim_proxy_rewards(
    pps: &Vec<(AssetInfo, Dec)>,
    debts: &Vec<(AssetInfo, u128)>,
    lp: u128,
) -> (r: Result<(Vec<(AssetInfo, u128)>, Vec<(AssetInfo, u128)>), LockdropError>)
    ensures
        r is Ok <==> proxy_claims(pps@, debts@, lp) is Ok,
        r matches Ok((new_debts, pending)) ==> proxy_claims(pps@, debts@, lp) == Ok::<
            (Seq<(AssetInfo, u128)>, Seq<(AssetInfo, u128)>),
            LockdropError,
        >((new_debts@, pending@)),
        r matches Err(e) ==> proxy_claims(pps@, debts@, lp) == Err::<
            (Seq<(AssetInfo, u128)>, Seq<(AssetInfo, u128)>),
            LockdropError,
        >(e),
{
    let mut new_debts: Vec<(AssetInfo, u128)> = Vec::new();
    let mut pending: Vec<(AssetInfo, u128)> = Vec::new();
    let mut i: usize = 0;
    proof {
        assert(debts@.take(0) =~= Seq::<(AssetInfo, u128)>::empty());
    }
    while i < debts.len()
        invariant
            i <= debts@.len(),
            proxy_claims(pps@, debts@.take(i as int), lp) == Ok::<
                (Seq<(AssetInfo, u128)>, Seq<(AssetInfo, u128)>),
                LockdropError,
            >((new_debts@, pending@)),
        decreases debts@.len() - i,
    {
        proof {
            assert(debts@.take(i + 1).drop_last() =~= debts@.take(i as int));
            assert(debts@.take(i + 1).last() == debts@[i as int]);
        }
        let asset = debts[i].0.duplicate();
        let debt = debts[i].1;
        let per_share = proxy_per_share_of(pps, &asset);
        let total = match per_share.checked_mul_uint128(lp) {
            Ok(t) => t,
            Err(_) => {
                proof {
                    lemma_proxy_claims_error_stays(pps@, debts@, lp, i + 1);
                }
                return Err(LockdropError::Overflow);
            },
        };
        let owed = match total.checked_sub(debt) {
            Some(v) => v,
            None => {
                proof {
                    lemma_proxy_claims_error_stays(pps@, debts@, lp, i + 1);
                }
                return Err(LockdropError::Overflow);
            },
        };
        if owed != 0 {
            pending.push((asset.duplicate(), owed));
        }
        new_debts.push((asset, total));
        i = i + 1;
    }
    proof {
        assert(debts@.take(i as int) =~= debts@);
    }
    Ok((new_debts, pending))
}

} // verus!

verus! {

/// What paying out a position's rewards sends or does.
#[derive(Clone, Debug, PartialEq, Eq)]
pub enum RewardAction {
    /// Send the generator's base rewards owed to the user
    SendBaseReward(u128),
    /// Send the user a proxy reward owed in the asset
    SendProxyReward(AssetInfo, u128),
    /// Withdraw the position's LP tokens from the generator
    UnstakeLp(u128),
    /// Transfer the position's LP tokens to the user
    TransferLp(u128),
    /// Send the user's one-time NTRN rewards
    SendNtrn(u128),
    /// Claim the user's airdrop tokens along with the given NTRN rewards
    ClaimAirdrop(u128),
}

/// The state a payout leaves and what it does.
#[derive(Debug)]
pub struct RewardsPayout {
    pub pool: PoolInfo,
    pub lockup: LockupInfo,
    pub user: UserInfo,
    /// The user's new total in the pool, where the position was unlocked
    pub total_user_lockup: Option<u128>,
    pub actions: Vec<RewardAction>,
}

/// The generator's base rewards a position of `lp` LP tokens has earned in
/// all, at `per_share` atomic units per token.
pub open spec fn base_rewards_total(per_share: u128, lp: int) -> int {
    (per_share * lp) / decimal_fractional()
}

/// The error, if any, that paying out a position reports, in the order the
/// checks are made; `balance` is the pool's LP balance.
pub open spec fn payout_error(
    config: Config,
    pool: PoolInfo,
    lockup: LockupInfo,
    user: UserInfo,
    total_user_lockup: Option<u128>,
    balance: u128,
    withdraw_lp_stake: bool,
) -> Option<LockdropError> {
    let lp = lp_share(lockup.lp_units_locked, balance, pool.amount_in_lockups);
    let base_total = base_rewards_total(pool.generator_ntrn_per_share.atomics, lp);
    let proxy = proxy_claims(pool.generator_proxy_per_share@, lockup.generator_proxy_debt@, lp as u128);
    if config.generator is None {
        Some(LockdropError::GeneratorNotSet)
    } else if pool.amount_in_lockups == 0 {
        Some(LockdropError::DivideByZero)
    } else if lp > u128::MAX {
        Some(LockdropError::Overflow)
    } else if pool.is_staked && (pool.generator_ntrn_per_share.atomics * lp > u128::MAX
        || lockup.generator_ntrn_debt > base_total) {
        Some(LockdropError::Overflow)
    } else if pool.is_staked && proxy is Err {
        Some(proxy->Err_0)
    } else if pool.is_staked && !withdraw_lp_stake && user.ntrn_transferred && base_total
        == lockup.generator_ntrn_debt && proxy->Ok_0.1.len() == 0 {
        Some(LockdropError::NoRewardsToClaim)
    } else if withdraw_lp_stake && (lockup.lp_units_locked > pool.amount_in_lockups
        || (total_user_lockup matches Some(la) && lockup.lp_units_locked > la)) {
        Some(LockdropError::Overflow)
    } else {
        None
    }
}

/// The actions that send proxy rewards, in order.
pub open spec fn proxy_sends(pending: Seq<(AssetInfo, u128)>) -> Seq<RewardAction> {
    pending.map_values(|p: (AssetInfo, u128)| RewardAction::SendProxyReward(p.0, p.1))
}

/// The actions of a payout, in order: the generator's rewards owed and the
/// unstaking for a staked pool, the LP transfer on unlock, and the one-time
/// NTRN rewards and airdrop claim while not yet transferred.
pub open spec fn payout_actions(
    pool_is_staked: bool,
    base_owed: int,
    proxy_pending: Seq<(AssetInfo, u128)>,
    lp: u128,
    withdraw_lp_stake: bool,
    user: UserInfo,
    credits_balance: u128,
) -> Seq<RewardAction> {
    let staked: Seq<RewardAction> = if pool_is_staked {
        (if base_owed > 0 { seq![RewardAction::SendBaseReward(base_owed as u128)] } else { seq![] })
            + proxy_sends(proxy_pending) + (if withdraw_lp_stake { seq![RewardAction::UnstakeLp(lp)] } else { seq![] })
    } else {
        seq![]
    };
    let unlock: Seq<RewardAction> = if withdraw_lp_stake { seq![RewardAction::TransferLp(lp)] } else { seq![] };
    let one_time: Seq<RewardAction> = if !user.ntrn_transferred {
        (if user.total_ntrn_rewards > 0 { seq![RewardAction::SendNtrn(user.total_ntrn_rewards)] } else { seq![] })
            + (if credits_balance > 0 { seq![RewardAction::ClaimAirdrop(user.total_ntrn_rewards)] } else { seq![] })
    } else {
        seq![]
    };
    staked + unlock + one_time
}

/// The one-time NTRN reward is paid at most once: a payout's only NTRN
/// transfer is the user's whole one-time reward, made only while the user has
/// not received it (and has some); for a user marked as paid, as a payout
/// leaves the user, no payout sends it again.
pub proof fn law_one_time_reward_once(
    pool_is_staked: bool,
    base_owed: int,
    proxy_pending: Seq<(AssetInfo, u128)>,
    lp: u128,
    withdraw_lp_stake: bool,
    user: UserInfo,
    credits_balance: u128,
)
    ensures
        forall|i: int|
            0 <= i < payout_actions(pool_is_staked, base_owed, proxy_pending, lp, withdraw_lp_stake, user, credits_balance).len()
                && (#[trigger] payout_actions(pool_is_staked, base_owed, proxy_pending, lp, withdraw_lp_stake, user, credits_balance)[i]) is SendNtrn
                ==> !user.ntrn_transferred && payout_actions(pool_is_staked, base_owed, proxy_pending, lp, withdraw_lp_stake, user, credits_balance)[i]
                == RewardAction::SendNtrn(user.total_ntrn_rewards),
        (!user.ntrn_transferred && user.total_ntrn_rewards > 0) ==> payout_actions(
            pool_is_staked,
            base_owed,
            proxy_pending,
            lp,
            withdraw_lp_stake,
            user,
            credits_balance,
        ).contains(RewardAction::SendNtrn(user.total_ntrn_rewards)),
        forall|i: int|
            0 <= i < payout_actions(pool_is_staked, base_owed, proxy_pending, lp, withdraw_lp_stake, UserInfo { ntrn_transferred: true, ..user }, credits_balance).len()
                ==> !((#[trigger] payout_actions(pool_is_staked, base_owed, proxy_pending, lp, withdraw_lp_stake, UserInfo { ntrn_transferred: true, ..user }, credits_balance)[i]) is SendNtrn),
{
    let paid = UserInfo { ntrn_transferred: true, ..user };
    lemma_payout_ntrn_only_one_time(pool_is_staked, base_owed, proxy_pending, lp, withdraw_lp_stake, user, credits_balance);
    lemma_payout_ntrn_only_one_time(pool_is_staked, base_owed, proxy_pending, lp, withdraw_lp_stake, paid, credits_balance);
    if !user.ntrn_transferred && user.total_ntrn_rewards > 0 {
        let a = payout_actions(pool_is_staked, base_owed, proxy_pending, lp, withdraw_lp_stake, user, credits_balance);
        let staked: Seq<RewardAction> = if pool_is_staked {
            (if base_owed > 0 { seq![RewardAction::SendBaseReward(base_owed as u128)] } else { seq![] })
                + proxy_sends(proxy_pending) + (if withdraw_lp_stake { seq![RewardAction::UnstakeLp(lp)] } else { seq![] })
        } else {
            seq![]
        };
        let unlock: Seq<RewardAction> = if withdraw_lp_stake { seq![RewardAction::TransferLp(lp)] } else { seq![] };
        let k: int = (staked.len() + unlock.len()) as int;
        assert(a[k] == RewardAction::SendNtrn(user.total_ntrn_rewards));
    }
}

proof fn lemma_payout_ntrn_only_one_time(
    pool_is_staked: bool,
    base_owed: int,
    proxy_pending: Seq<(AssetInfo, u128)>,
    lp: u128,
    withdraw_lp_stake: bool,
    user: UserInfo,
    credits_balance: u128,
)
    ensures
        forall|i: int|
            0 <= i < payout_actions(pool_is_staked, base_owed, proxy_pending, lp, withdraw_lp_stake, user, credits_balance).len()
                && (#[trigger] payout_actions(pool_is_staked, base_owed, proxy_pending, lp, withdraw_lp_stake, user, credits_balance)[i]) is SendNtrn
                ==> !user.ntrn_transferred && payout_actions(pool_is_staked, base_owed, proxy_pending, lp, withdraw_lp_stake, user, credits_balance)[i]
                == RewardAction::SendNtrn(user.total_ntrn_rewards),
{
    let a = payout_actions(pool_is_staked, base_owed, proxy_pending, lp, withdraw_lp_stake, user, credits_balance);
    let base: Seq<RewardAction> = if base_owed > 0 { seq![RewardAction::SendBaseReward(base_owed as u128)] } else { seq![] };
    let unstake: Seq<RewardAction> = if withdraw_lp_stake { seq![RewardAction::UnstakeLp(lp)] } else { seq![] };
    let staked: Seq<RewardAction> = if pool_is_staked { base + proxy_sends(proxy_pending) + unstake } else { seq![] };
    let unlock: Seq<RewardAction> = if withdraw_lp_stake { seq![RewardAction::TransferLp(lp)] } else { seq![] };
    let send: Seq<RewardAction> = if user.total_ntrn_rewards > 0 { seq![RewardAction::SendNtrn(user.total_ntrn_rewards)] } else { seq![] };
    let airdrop: Seq<RewardAction> = if credits_balance > 0 { seq![RewardAction::ClaimAirdrop(user.total_ntrn_rewards)] } else { seq![] };
    let one_time: Seq<RewardAction> = if !user.ntrn_transferred { send + airdrop } else { seq![] };
    assert(a =~= staked + unlock + one_time);
    assert forall|i: int| 0 <= i < a.len() && (#[trigger] a[i]) is SendNtrn implies !user.ntrn_transferred
        && a[i] == RewardAction::SendNtrn(user.total_ntrn_rewards) by {
        if i < staked.len() {
            assert(a[i] == staked[i]);
            if pool_is_staked {
                let p = proxy_sends(proxy_pending);
                if i < base.len() {
                    assert(staked[i] == base[i]);
                } else if i < base.len() + p.len() {
                    assert(staked[i] == p[i - base.len()]);
                } else {
                    assert(staked[i] == unstake[i - base.len() - p.len()]);
                }
            }
        } else if i < staked.len() + unlock.len() {
            assert(a[i] == unlock[i - staked.len()]);
        } else {
            let j = i - staked.len() - unlock.len();
            assert(a[i] == one_time[j]);
            if !user.ntrn_transferred {
                if j < send.len() {
                    assert(one_time[j] == send[j]);
                } else {
                    assert(one_time[j] == airdrop[j - send.len()]);
                }
            }
        }
    }
}

/// Withdraws user rewards and, with `withdraw_lp_stake`, the LP tokens of a
/// position after a claim: the position's share of the pool's LP `balance`
/// (staked with the generator or held), the generator rewards it is owed
/// where the pool is staked, and the one-time NTRN rewards and airdrop claim
/// where not yet transferred; `credits_balance` is the user's credits balance.
pub fn callback_withdraw_user_rewards_for_lockup_optional_withdraw(
    config: &Config,
    pool: PoolInfo,
    lockup: LockupInfo,
    user: UserInfo,
    total_user_lockup: Option<u128>,
    balance: u128,
    withdraw_lp_stake: bool,
    credits_balance: u128,
) -> (r: Result<RewardsPayout, LockdropError>)
    requires
        (pool.is_staked && config.generator is Some && pool.amount_in_lockups != 0) ==> lp_share(
            lockup.lp_units_locked,
            balance,
            pool.amount_in_lockups,
        ) * decimal_fractional() <= u128::MAX,
    ensures
        r is Err <==> payout_error(*config, pool, lockup, user, total_user_lockup, balance, withdraw_lp_stake) is Some,
        r matches Err(e) ==> Some(e) == payout_error(*config, pool, lockup, user, total_user_lockup, balance, withdraw_lp_stake),
        r matches Ok(out) ==> {
            let lp = lp_share(lockup.lp_units_locked, balance, pool.amount_in_lockups) as u128;
            let base_total = base_rewards_total(pool.generator_ntrn_per_share.atomics, lp as int);
            let proxy = proxy_claims(pool.generator_proxy_per_share@, lockup.generator_proxy_debt@, lp)->Ok_0;
            &&& out.pool.amount_in_lockups == (if withdraw_lp_stake {
                pool.amount_in_lockups - lockup.lp_units_locked
            } else {
                pool.amount_in_lockups as int
            })
            &&& out.pool.weighted_amount == pool.weighted_amount
            &&& out.pool.lp_token == pool.lp_token
            &&& out.pool.is_staked == pool.is_staked
            &&& out.pool.generator_ntrn_per_share == pool.generator_ntrn_per_share
            &&& out.pool.generator_proxy_per_share@ == pool.generator_proxy_per_share@
            &&& out.pool.incentives_share == pool.incentives_share
            &&& out.lockup.lp_units_locked == lockup.lp_units_locked
            &&& out.lockup.generator_ntrn_debt == (if pool.is_staked { base_total } else { lockup.generator_ntrn_debt as int })
            &&& out.lockup.generator_proxy_debt@ == (if pool.is_staked { proxy.0 } else { lockup.generator_proxy_debt@ })
            &&& out.lockup.astroport_lp_transferred == (if withdraw_lp_stake { Some(lp) } else { lockup.astroport_lp_transferred })
            &&& out.lockup.withdrawal_flag == lockup.withdrawal_flag
            &&& out.lockup.ntrn_rewards == lockup.ntrn_rewards
            &&& out.lockup.unlock_timestamp == lockup.unlock_timestamp
            &&& out.user == UserInfo { ntrn_transferred: true, ..user }
            &&& out.total_user_lockup == (if withdraw_lp_stake {
                Some(match total_user_lockup {
                    Some(la) => (la - lockup.lp_units_locked) as u128,
                    None => 0u128,
                })
            } else {
                None
            })
            &&& out.actions@ == payout_actions(
                pool.is_staked,
                base_total - lockup.generator_ntrn_debt,
                proxy.1,
                lp,
                withdraw_lp_stake,
                user,
                credits_balance,
            )
        },
{
    if config.generator.is_none() {
        return Err(LockdropError::GeneratorNotSet);
    }
    let lp = match lockup_lp_share(lockup.lp_units_locked, balance, pool.amount_in_lockups) {
        Ok(v) => v,
        Err(e) => {
            return Err(e);
        },
    };
    let mut pool = pool;
    let mut lockup = lockup;
    let mut actions: Vec<RewardAction> = Vec::new();
    let ghost base_owed: int = 0;
    let ghost proxy_pending: Seq<(AssetInfo, u128)> = Seq::empty();
    if pool.is_staked {
        let lp_decimal = match u128_to_decimal(lp) {
            Some(d) => d,
            None => {
                proof {
                    assert(false);
                }
                return Err(LockdropError::Overflow);
            },
        };
        proof {
            let a = pool.generator_ntrn_per_share.atomics as int;
            assert(a * (lp * decimal_fractional()) == decimal_fractional() * (a * lp)) by (nonlinear_arith);
            vstd::arithmetic::div_mod::lemma_div_multiples_vanish(a * lp, decimal_fractional());
        }
        let base_total = match pool.generator_ntrn_per_share.checked_mul(lp_decimal) {
            Some(d) => d.to_uint_floor(),
            None => {
                return Err(LockdropError::Overflow);
            },
        };
        let base_pending = match base_total.checked_sub(lockup.generator_ntrn_debt) {
            Some(v) => v,
            None => {
                return Err(LockdropError::Overflow);
            },
        };
        lockup.generator_ntrn_debt = base_total;
        let (new_debts, pending) = match claim_proxy_rewards(
            &pool.generator_proxy_per_share,
            &lockup.generator_proxy_debt,
            lp,
        ) {
            Ok(p) => p,
            Err(e) => {
                return Err(e);
            },
        };
        lockup.generator_proxy_debt = new_debts;
        if !withdraw_lp_stake && user.ntrn_transferred && base_pending == 0 && pending.len() == 0 {
            return Err(LockdropError::NoRewardsToClaim);
        }
        if base_pending > 0 {
            actions.push(RewardAction::SendBaseReward(base_pending));
        }
        let ghost before = actions@;
        let mut j: usize = 0;
        while j < pending.len()
            invariant
                j <= pending@.len(),
                actions@ == before + proxy_sends(pending@.take(j as int)),
            decreases pending@.len() - j,
        {
            proof {
                assert(proxy_sends(pending@.take(j + 1)) =~= proxy_sends(pending@.take(j as int)).push(
                    RewardAction::SendProxyReward(pending@[j as int].0, pending@[j as int].1),
                ));
            }
            actions.push(RewardAction::SendProxyReward(pending[j].0.duplicate(), pending[j].1));
            j = j + 1;
        }
        proof {
            assert(pending@.take(j as int) =~= pending@);
            base_owed = base_pending as int;
            proxy_pending = pending@;
        }
        if withdraw_lp_stake {
            actions.push(RewardAction::UnstakeLp(lp));
        }
    }
    let mut new_total: Option<u128> = None;
    if withdraw_lp_stake {
        actions.push(RewardAction::TransferLp(lp));
        pool.amount_in_lockups = match pool.amount_in_lockups.checked_sub(lockup.lp_units_locked) {
            Some(v) => v,
            None => {
                return Err(LockdropError::Overflow);
            },
        };
        lockup.astroport_lp_transferred = Some(lp);
        new_total = match total_user_lockup {
            Some(la) => match la.checked_sub(lockup.lp_units_locked) {
                Some(v) => Some(v),
                None => {
                    return Err(LockdropError::Overflow);
                },
            },
            None => Some(0),
        };
    }
    let ghost user0 = user;
    let mut user = user;
    if !user.ntrn_transferred {
        if user.total_ntrn_rewards > 0 {
            actions.push(RewardAction::SendNtrn(user.total_ntrn_rewards));
        }
        if credits_balance > 0 {
            actions.push(RewardAction::ClaimAirdrop(user.total_ntrn_rewards));
        }
        user.ntrn_transferred = true;
    }
    proof {
        assert(actions@ =~= payout_actions(
            pool.is_staked,
            base_owed,
            proxy_pending,
            lp,
            withdraw_lp_stake,
            user0,
            credits_balance,
        ));
    }
    Ok(RewardsPayout { pool, lockup, user, total_user_lockup: new_total, actions })
}

} // verus!

verus! {

/// The airdrop rewards multiplier, one, in atomic units.
pub const AIRDROP_REWARDS_MULTIPLIER_ATOMICS: u128 = 1_000_000_000_000_000_000u128;

/// The airdrop tokens a user's claim burns: the user's vested tokens up to
/// the NTRN lockdrop rewards times the multiplier (one), plus all unvested
/// tokens; an overflow where the sum does not fit in 128 bits.
pub fn claim_airdrop_amount(vested: u128, unvested: u128, ntrn_lockdrop_rewards: u128) -> (r: Result<
    u128,
    LockdropError,
>)
    requires
        ntrn_lockdrop_rewards * decimal_fractional() <= u128::MAX,
    ensures
        ({
            let claimable = if vested <= ntrn_lockdrop_rewards { vested } else { ntrn_lockdrop_rewards };
            if claimable + unvested > u128::MAX {
                r == Err::<u128, LockdropError>(LockdropError::Overflow)
            } else {
                r == Ok::<u128, LockdropError>((claimable + unvested) as u128)
            }
        }),
{
    let rewards = match u128_to_decimal(ntrn_lockdrop_rewards) {
        Some(d) => d,
        None => {
            proof {
                assert(false);
            }
            return Err(LockdropError::Overflow);
        },
    };
    let multiplier = Dec { atomics: AIRDROP_REWARDS_MULTIPLIER_ATOMICS };
    proof {
        let x = ntrn_lockdrop_rewards * decimal_fractional();
        assert(x * decimal_fractional() == decimal_fractional() * x) by (nonlinear_arith);
        vstd::arithmetic::div_mod::lemma_div_multiples_vanish(x, decimal_fractional());
        assert(ntrn_lockdrop_rewards * decimal_fractional() == decimal_fractional() * ntrn_lockdrop_rewards) by (nonlinear_arith);
        vstd::arithmetic::div_mod::lemma_div_multiples_vanish(ntrn_lockdrop_rewards as int, decimal_fractional());
    }
    let scaled = match rewards.checked_mul(multiplier) {
        Some(d) => d.to_uint_floor(),
        None => {
            proof {
                assert(false);
            }
            return Err(LockdropError::Overflow);
        },
    };
    let claimable = if vested <= scaled { vested } else { scaled };
    match claimable.checked_add(unvested) {
        Some(v) => Ok(v),
        None => Err(LockdropError::Overflow),
    }
}

/// The index of the first entry for `key`, if any.
pub open spec fn first_index_of<V>(v: Seq<(AssetInfo, V)>, key: AssetInfo) -> Option<int>
    decreases v.len(),
{
    if v.len() == 0 {
        None
    } else if v[0].0.same(key) {
        Some(0)
    } else {
        match first_index_of(v.drop_first(), key) {
            Some(i) => Some(i + 1),
            None => None,
        }
    }
}

proof fn lemma_first_index_of_bounds<V>(v: Seq<(AssetInfo, V)>, key: AssetInfo)
    ensures
        first_index_of(v, key) matches Some(i) ==> 0 <= i < v.len() && v[i].0.same(key)
            && forall|j: int| 0 <= j < i ==> !(#[trigger] v[j]).0.same(key),
        first_index_of(v, key) is None ==> forall|j: int| 0 <= j < v.len() ==> !(#[trigger] v[j]).0.same(key),
    decreases v.len(),
{
    if v.len() > 0 {
        lemma_first_index_of_bounds(v.drop_first(), key);
        assert forall|j: int| 0 < j < v.len() implies v[j] == v.drop_first()[j - 1] by {}
    }
}

/// The index of the first entry for `key`, if any.
fn find_key<V>(v: &Vec<(AssetInfo, V)>, key: &AssetInfo) -> (r: Option<usize>)
    ensures
        r matches Some(i) ==> first_index_of(v@, *key) == Some(i as int) && i < v@.len(),
        r is None ==> first_index_of(v@, *key) is None,
{
    proof {
        lemma_first_index_of_bounds(v@, *key);
    }
    let mut i: usize = 0;
    while i < v.len()
        invariant
            i <= v@.len(),
            forall|j: int| 0 <= j < i ==> !(#[trigger] v@[j]).0.same(*key),
            first_index_of(v@, *key) matches Some(k) ==> 0 <= k < v@.len() && v@[k].0.same(*key)
                && forall|j: int| 0 <= j < k ==> !(#[trigger] v@[j]).0.same(*key),
            first_index_of(v@, *key) is None ==> forall|j: int| 0 <= j < v@.len() ==> !(#[trigger] v@[j]).0.same(*key),
        decreases v@.len() - i,
    {
        if v[i].0.equals(key) {
            return Some(i);
        }
        i = i + 1;
    }
    None
}

/// Adding `value` to the entry for `key`, or appending an entry for it.
pub open spec fn per_share_updated(v: Seq<(AssetInfo, Dec)>, key: AssetInfo, value: nat) -> Seq<(AssetInfo, Dec)> {
    match first_index_of(v, key) {
        Some(i) => v.update(i, (v[i].0, Dec { atomics: (v[i].1.atomics + value) as u128 })),
        None => v.push((key, Dec { atomics: value as u128 })),
    }
}

/// The entry for `key` leaves room to add `value` to it.
pub open spec fn per_share_update_fits(v: Seq<(AssetInfo, Dec)>, key: AssetInfo, value: nat) -> bool {
    first_index_of(v, key) matches Some(i) ==> v[i].1.atomics + value <= u128::MAX
}

/// Adds `value` to the rewards per share recorded for `key`, recording it
/// where none was; returns the new value.
pub fn update_per_share(v: &mut Vec<(AssetInfo, Dec)>, key: &AssetInfo, value: Dec) -> (r: Dec)
    requires
        per_share_update_fits(old(v)@, *key, value.atomics as nat),
    ensures
        final(v)@ == per_share_updated(old(v)@, *key, value.atomics as nat),
        r.atomics == (match first_index_of(old(v)@, *key) {
            Some(i) => old(v)@[i].1.atomics + value.atomics,
            None => value.atomics as int,
        }),
{
    match find_key(v, key) {
        Some(i) => {
            let current = v[i].1;
            let updated = Dec { atomics: current.atomics + value.atomics };
            let entry = (v[i].0.duplicate(), updated);
            v.set(i, entry);
            updated
        },
        None => {
            v.push((key.duplicate(), value));
            value
        },
    }
}

/// Adding `value` to the entry for `key`, or appending an entry for it.
pub open spec fn debt_updated(v: Seq<(AssetInfo, u128)>, key: AssetInfo, value: nat) -> Seq<(AssetInfo, u128)> {
    match first_index_of(v, key) {
        Some(i) => v.update(i, (v[i].0, (v[i].1 + value) as u128)),
        None => v.push((key, value as u128)),
    }
}

/// Adds `value` to the amount recorded for `key`, recording it where none
/// was; returns the new amount.
pub fn update_debt(v: &mut Vec<(AssetInfo, u128)>, key: &AssetInfo, value: u128) -> (r: u128)
    requires
        first_index_of(old(v)@, *key) matches Some(i) ==> old(v)@[i].1 + value <= u128::MAX,
    ensures
        final(v)@ == debt_updated(old(v)@, *key, value as nat),
        r == (match first_index_of(old(v)@, *key) {
            Some(i) => old(v)@[i].1 + value,
            None => value as int,
        }),
{
    match find_key(v, key) {
        Some(i) => {
            let updated = v[i].1 + value;
            let entry = (v[i].0.duplicate(), updated);
            v.set(i, entry);
            updated
        },
        None => {
            v.push((key.duplicate(), value));
            value
        },
    }
}

} // verus!

verus! {

/// The rewards per LP token that `received` tokens over `lp_balance` LP
/// tokens make, in atomic units.
pub open spec fn per_share(received: int, lp_balance: u128) -> int {
    (received * decimal_fractional()) / (lp_balance as int)
}

/// The proxy rewards per share after each proxy asset's balance moved from
/// its previous to its current value, in order; an overflow where a balance
/// fell. `None` where a ratio or a sum leaves 128 bits.
pub open spec fn proxy_per_share_fold(
    pps: Seq<(AssetInfo, Dec)>,
    proxies: Seq<(AssetInfo, u128, u128)>,
    lp_balance: u128,
) -> Option<Result<Seq<(AssetInfo, Dec)>, LockdropError>>
    decreases proxies.len(),
{
    if proxies.len() == 0 {
        Some(Ok(pps))
    } else {
        match proxy_per_share_fold(pps, proxies.drop_last(), lp_balance) {
            None => None,
            Some(Err(e)) => Some(Err(e)),
            Some(Ok(current)) => {
                let (asset, prev, now) = proxies.last();
                if prev > now {
                    Some(Err(LockdropError::Overflow))
                } else {
                    let q = per_share(now - prev, lp_balance);
                    if lp_balance == 0 || q > u128::MAX || !per_share_update_fits(current, asset, q as nat) {
                        None
                    } else {
                        Some(Ok(per_share_updated(current, asset, q as nat)))
                    }
                }
            },
        }
    }
}

proof fn lemma_proxy_fold_stops(
    pps: Seq<(AssetInfo, Dec)>,
    proxies: Seq<(AssetInfo, u128, u128)>,
    lp_balance: u128,
    n: int,
)
    requires
        0 <= n <= proxies.len(),
        !(proxy_per_share_fold(pps, proxies.take(n), lp_balance) matches Some(Ok(_))),
    ensures
        proxy_per_share_fold(pps, proxies, lp_balance) == proxy_per_share_fold(pps, proxies.take(n), lp_balance),
    decreases proxies.len() - n,
{
    if n < proxies.len() {
        assert(proxies.take(n + 1).drop_last() =~= proxies.take(n));
        lemma_proxy_fold_stops(pps, proxies, lp_balance, n + 1);
    } else {
        assert(proxies.take(n) =~= proxies);
    }
}

/// The base rewards received and the pool's new rewards per share after the
/// generator paid out, or the error reported; `None` where the arithmetic
/// would abort.
pub open spec fn dual_claim(
    config: Config,
    pool: PoolInfo,
    lp_balance: u128,
    reward_balance: u128,
    prev_ntrn_balance: u128,
    proxies: Seq<(AssetInfo, u128, u128)>,
) -> Option<Result<(u128, Seq<(AssetInfo, Dec)>, u128), LockdropError>> {
    if config.generator is None {
        Some(Err(LockdropError::GeneratorNotSet))
    } else if prev_ntrn_balance > reward_balance {
        Some(Err(LockdropError::Overflow))
    } else {
        let received = reward_balance - prev_ntrn_balance;
        let q = per_share(received, lp_balance);
        if lp_balance == 0 || q > u128::MAX {
            None
        } else if pool.generator_ntrn_per_share.atomics + q > u128::MAX {
            Some(Err(LockdropError::Overflow))
        } else {
            match proxy_per_share_fold(pool.generator_proxy_per_share@, proxies, lp_balance) {
                None => None,
                Some(Err(e)) => Some(Err(e)),
                Some(Ok(pps)) => Some(Ok(((pool.generator_ntrn_per_share.atomics + q) as u128, pps, received as u128))),
            }
        }
    }
}

/// Updates the pool after the generator's dual rewards were claimed: the
/// base rewards received since `prev_ntrn_balance` and each proxy asset's
/// rewards received, in `proxies` as (asset, previous balance, current
/// balance), are spread over the pool's `lp_balance` staked LP tokens.
/// Returns the pool and the base rewards received.
pub fn update_pool_on_dual_rewards_claim(
    config: &Config,
    pool: PoolInfo,
    lp_balance: u128,
    reward_balance: u128,
    prev_ntrn_balance: u128,
    proxies: &Vec<(AssetInfo, u128, u128)>,
) -> (r: Result<(PoolInfo, u128), LockdropError>)
    requires
        dual_claim(*config, pool, lp_balance, reward_balance, prev_ntrn_balance, proxies@) is Some,
    ensures
        r is Ok <==> dual_claim(*config, pool, lp_balance, reward_balance, prev_ntrn_balance, proxies@)->0 is Ok,
        r matches Err(e) ==> dual_claim(*config, pool, lp_balance, reward_balance, prev_ntrn_balance, proxies@)
            == Some(Err::<(u128, Seq<(AssetInfo, Dec)>, u128), LockdropError>(e)),
        r matches Ok((p, received)) ==> {
            &&& dual_claim(*config, pool, lp_balance, reward_balance, prev_ntrn_balance, proxies@)
                == Some(Ok::<(u128, Seq<(AssetInfo, Dec)>, u128), LockdropError>(
                (p.generator_ntrn_per_share.atomics, p.generator_proxy_per_share@, received)))
            &&& p.lp_token == pool.lp_token
            &&& p.amount_in_lockups == pool.amount_in_lockups
            &&& p.incentives_share == pool.incentives_share
            &&& p.weighted_amount == pool.weighted_amount
            &&& p.is_staked == pool.is_staked
        },
{
    if config.generator.is_none() {
        return Err(LockdropError::GeneratorNotSet);
    }
    let received = match reward_balance.checked_sub(prev_ntrn_balance) {
        Some(v) => v,
        None => {
            return Err(LockdropError::Overflow);
        },
    };
    let ratio = match Dec::from_ratio(received, lp_balance) {
        Some(d) => d,
        None => {
            proof {
                assert(false);
            }
            return Err(LockdropError::Overflow);
        },
    };
    let mut updated = pool;
    updated.generator_ntrn_per_share = match updated.generator_ntrn_per_share.checked_add(ratio) {
        Some(d) => d,
        None => {
            return Err(LockdropError::Overflow);
        },
    };
    let ghost pps0 = pool.generator_proxy_per_share@;
    let mut i: usize = 0;
    proof {
        assert(proxies@.take(0) =~= Seq::<(AssetInfo, u128, u128)>::empty());
    }
    while i < proxies.len()
        invariant
            i <= proxies@.len(),
            lp_balance != 0,
            proxy_per_share_fold(pps0, proxies@, lp_balance) is Some,
            pps0 == pool.generator_proxy_per_share@,
            proxy_per_share_fold(pps0, proxies@.take(i as int), lp_balance) == Some(
                Ok::<Seq<(AssetInfo, Dec)>, LockdropError>(updated.generator_proxy_per_share@),
            ),
            dual_claim(*config, pool, lp_balance, reward_balance, prev_ntrn_balance, proxies@) == match proxy_per_share_fold(pps0, proxies@, lp_balance) {
                None => None,
                Some(Err(e)) => Some(Err(e)),
                Some(Ok(pps)) => Some(Ok::<(u128, Seq<(AssetInfo, Dec)>, u128), LockdropError>((updated.generator_ntrn_per_share.atomics, pps, received))),
            },
            updated.lp_token == pool.lp_token,
            updated.amount_in_lockups == pool.amount_in_lockups,
            updated.incentives_share == pool.incentives_share,
            updated.weighted_amount == pool.weighted_amount,
            updated.is_staked == pool.is_staked,
        decreases proxies@.len() - i,
    {
        proof {
            assert(proxies@.take(i + 1).drop_last() =~= proxies@.take(i as int));
            assert(proxies@.take(i + 1).last() == proxies@[i as int]);
        }
        let prev = proxies[i].1;
        let current = proxies[i].2;
        let got = match current.checked_sub(prev) {
            Some(v) => v,
            None => {
                proof {
                    lemma_proxy_fold_stops(pps0, proxies@, lp_balance, i + 1);
                }
                return Err(LockdropError::Overflow);
            },
        };
        proof {
            if !(proxy_per_share_fold(pps0, proxies@.take(i + 1), lp_balance) matches Some(Ok(_))) {
                lemma_proxy_fold_stops(pps0, proxies@, lp_balance, i + 1);
            }
        }
        let share = match Dec::from_ratio(got, lp_balance) {
            Some(d) => d,
            None => {
                proof {
                    assert(false);
                }
                return Err(LockdropError::Overflow);
            },
        };
        let asset = proxies[i].0.duplicate();
        update_per_share(&mut updated.generator_proxy_per_share, &asset, share);
        i = i + 1;
    }
    proof {
        assert(proxies@.take(i as int) =~= proxies@);
    }
    Ok((updated, received))
}

} // verus!

verus! {

/// The debt recorded for `asset`: the first entry for it, else none.
pub open spec fn debt_of(debts: Seq<(AssetInfo, u128)>, asset: AssetInfo) -> nat
    decreases debts.len(),
{
    if debts.len() == 0 {
        0
    } else if debts[0].0.same(asset) {
        debts[0].1 as nat
    } else {
        debt_of(debts.drop_first(), asset)
    }
}

/// The debt recorded for `asset`, zero where none is.
pub fn debt_for(debts: &Vec<(AssetInfo, u128)>, asset: &AssetInfo) -> (r: u128)
    ensures
        r == debt_of(debts@, *asset),
{
    let mut i: usize = 0;
    proof {
        assert(debts@.skip(0) =~= debts@);
    }
    while i < debts.len()
        invariant
            i <= debts@.len(),
            debt_of(debts@, *asset) == debt_of(debts@.skip(i as int), *asset),
        decreases debts@.len() - i,
    {
        if debts[i].0.equals(asset) {
            proof {
                assert(debts@.skip(i as int)[0] == debts@[i as int]);
            }
            return debts[i].1;
        }
        proof {
            assert(debts@.skip(i as int).drop_first() =~= debts@.skip(i + 1));
        }
        i = i + 1;
    }
    0
}

/// The rewards per share for `asset` in `pps` once `q` was added to it.
pub open spec fn per_share_after(pps: Seq<(AssetInfo, Dec)>, asset: AssetInfo, q: nat) -> int {
    match first_index_of(pps, asset) {
        Some(i) => pps[i].1.atomics + q,
        None => q as int,
    }
}

/// The proxy rewards a position of `units` LP tokens could claim, with the
/// generator's pending proxy `rewards` spread over the pool's `balance`: the
/// rewards per share and the claimable amounts, asset by asset in order; an
/// overflow where a share leaves 128 bits or falls below the debt; `None`
/// where the arithmetic would abort.
pub open spec fn pending_proxy_fold(
    pps: Seq<(AssetInfo, Dec)>,
    rewards: Seq<(AssetInfo, u128)>,
    debts: Seq<(AssetInfo, u128)>,
    units: u128,
    balance: u128,
) -> Option<Result<(Seq<(AssetInfo, Dec)>, Seq<(AssetInfo, u128)>), LockdropError>>
    decreases rewards.len(),
{
    if rewards.len() == 0 {
        Some(Ok((pps, Seq::empty())))
    } else {
        match pending_proxy_fold(pps, rewards.drop_last(), debts, units, balance) {
            None => None,
            Some(Err(e)) => Some(Err(e)),
            Some(Ok((p, c))) => {
                let asset = rewards.last().0;
                let q = per_share(rewards.last().1 as int, balance);
                if balance == 0 || q > u128::MAX || !per_share_update_fits(p, asset, q as nat) {
                    None
                } else {
                    let total = (units * per_share_after(p, asset, q as nat)) / decimal_fractional();
                    let debt = debt_of(debts, asset);
                    if total > u128::MAX || debt > total {
                        Some(Err(LockdropError::Overflow))
                    } else if first_index_of(c, asset) matches Some(i) && c[i].1 + (total - debt) > u128::MAX {
                        None
                    } else {
                        Some(Ok((per_share_updated(p, asset, q as nat), debt_updated(c, asset, (total - debt) as nat))))
                    }
                }
            },
        }
    }
}

proof fn lemma_pending_proxy_fold_stops(
    pps: Seq<(AssetInfo, Dec)>,
    rewards: Seq<(AssetInfo, u128)>,
    debts: Seq<(AssetInfo, u128)>,
    units: u128,
    balance: u128,
    n: int,
)
    requires
        0 <= n <= rewards.len(),
        !(pending_proxy_fold(pps, rewards.take(n), debts, units, balance) matches Some(Ok(_))),
    ensures
        pending_proxy_fold(pps, rewards, debts, units, balance) == pending_proxy_fold(pps, rewards.take(n), debts, units, balance),
    decreases rewards.len() - n,
{
    if n < rewards.len() {
        assert(rewards.take(n + 1).drop_last() =~= rewards.take(n));
        lemma_pending_proxy_fold_stops(pps, rewards, debts, units, balance, n + 1);
    } else {
        assert(rewards.take(n) =~= rewards);
    }
}

/// The generator rewards a position of `units` LP tokens could claim now,
/// with the generator's `pending` base rewards and pending proxy `rewards`
/// spread over the pool's staked `balance`: the base rewards and the proxy
/// rewards per asset; `None` where the arithmetic would abort.
pub open spec fn generator_claims(
    pool: PoolInfo,
    lockup: LockupInfo,
    units: u128,
    balance: u128,
    pending: u128,
    rewards: Seq<(AssetInfo, u128)>,
) -> Option<Result<(u128, Seq<(AssetInfo, u128)>), LockdropError>> {
    let q = per_share(pending as int, balance);
    if balance == 0 || q > u128::MAX {
        None
    } else if pool.generator_ntrn_per_share.atomics + q > u128::MAX {
        Some(Err(LockdropError::Overflow))
    } else {
        let g = pool.generator_ntrn_per_share.atomics + q;
        if g * units > u128::MAX || lockup.generator_ntrn_debt > base_rewards_total(g as u128, units as int) {
            Some(Err(LockdropError::Overflow))
        } else {
            match pending_proxy_fold(pool.generator_proxy_per_share@, rewards, lockup.generator_proxy_debt@, units, balance) {
                None => None,
                Some(Err(e)) => Some(Err(e)),
                Some(Ok((_, c))) => Some(Ok(((base_rewards_total(g as u128, units as int) - lockup.generator_ntrn_debt) as u128, c))),
            }
        }
    }
}

/// The generator rewards a position of `units` LP tokens could claim now:
/// its base rewards and its proxy rewards per asset.
pub fn lockup_generator_claims(
    pool: &PoolInfo,
    lockup: &LockupInfo,
    units: u128,
    balance: u128,
    pending: u128,
    rewards: &Vec<(AssetInfo, u128)>,
) -> (r: Result<(u128, Vec<(AssetInfo, u128)>), LockdropError>)
    requires
        generator_claims(*pool, *lockup, units, balance, pending, rewards@) is Some,
        units * decimal_fractional() <= u128::MAX,
    ensures
        r is Ok <==> generator_claims(*pool, *lockup, units, balance, pending, rewards@)->0 is Ok,
        r matches Err(e) ==> generator_claims(*pool, *lockup, units, balance, pending, rewards@)
            == Some(Err::<(u128, Seq<(AssetInfo, u128)>), LockdropError>(e)),
        r matches Ok((base, proxy)) ==> generator_claims(*pool, *lockup, units, balance, pending, rewards@)
            == Some(Ok::<(u128, Seq<(AssetInfo, u128)>), LockdropError>((base, proxy@))),
{
    let ratio = match Dec::from_ratio(pending, balance) {
        Some(d) => d,
        None => {
            proof {
                assert(false);
            }
            return Err(LockdropError::Overflow);
        },
    };
    let per_share_now = match pool.generator_ntrn_per_share.checked_add(ratio) {
        Some(d) => d,
        None => {
            return Err(LockdropError::Overflow);
        },
    };
    let units_decimal = match u128_to_decimal(units) {
        Some(d) => d,
        None => {
            proof {
                assert(false);
            }
            return Err(LockdropError::Overflow);
        },
    };
    proof {
        let a = per_share_now.atomics as int;
        assert(a * (units * decimal_fractional()) == decimal_fractional() * (a * units)) by (nonlinear_arith);
        vstd::arithmetic::div_mod::lemma_div_multiples_vanish(a * units, decimal_fractional());
    }
    let total = match per_share_now.checked_mul(units_decimal) {
        Some(d) => d.to_uint_floor(),
        None => {
            return Err(LockdropError::Overflow);
        },
    };
    let claimable = match total.checked_sub(lockup.generator_ntrn_debt) {
        Some(v) => v,
        None => {
            return Err(LockdropError::Overflow);
        },
    };
    let mut pps = copy_per_share(&pool.generator_proxy_per_share);
    let mut claims: Vec<(AssetInfo, u128)> = Vec::new();
    let ghost pps0 = pool.generator_proxy_per_share@;
    let ghost debts = lockup.generator_proxy_debt@;
    proof {
        assert(pps@ == pps0);
        assert(rewards@.take(0) =~= Seq::<(AssetInfo, u128)>::empty());
    }
    let mut i: usize = 0;
    while i < rewards.len()
        invariant
            i <= rewards@.len(),
            debts == lockup.generator_proxy_debt@,
            pps0 == pool.generator_proxy_per_share@,
            pending_proxy_fold(pps0, rewards@, debts, units, balance) is Some,
            pending_proxy_fold(pps0, rewards@.take(i as int), debts, units, balance) == Some(
                Ok::<(Seq<(AssetInfo, Dec)>, Seq<(AssetInfo, u128)>), LockdropError>((pps@, claims@)),
            ),
            generator_claims(*pool, *lockup, units, balance, pending, rewards@) == match pending_proxy_fold(pps0, rewards@, debts, units, balance) {
                None => None,
                Some(Err(e)) => Some(Err(e)),
                Some(Ok((_, c))) => Some(Ok::<(u128, Seq<(AssetInfo, u128)>), LockdropError>((claimable, c))),
            },
        decreases rewards@.len() - i,
    {
        proof {
            assert(rewards@.take(i + 1).drop_last() =~= rewards@.take(i as int));
            assert(rewards@.take(i + 1).last() == rewards@[i as int]);
            if !(pending_proxy_fold(pps0, rewards@.take(i + 1), debts, units, balance) matches Some(Ok(_))) {
                lemma_pending_proxy_fold_stops(pps0, rewards@, debts, units, balance, i + 1);
            }
        }
        let asset = rewards[i].0.duplicate();
        let share = match Dec::from_ratio(rewards[i].1, balance) {
            Some(d) => d,
            None => {
                proof {
                    assert(false);
                }
                return Err(LockdropError::Overflow);
            },
        };
        let per_share_asset = update_per_share(&mut pps, &asset, share);
        let asset_total = match per_share_asset.checked_mul_uint128(units) {
            Ok(v) => v,
            Err(_) => {
                return Err(LockdropError::Overflow);
            },
        };
        let debt = debt_for(&lockup.generator_proxy_debt, &asset);
        let owed = match asset_total.checked_sub(debt) {
            Some(v) => v,
            None => {
                return Err(LockdropError::Overflow);
            },
        };
        update_debt(&mut claims, &asset, owed);
        i = i + 1;
    }
    proof {
        assert(rewards@.take(i as int) =~= rewards@);
    }
    Ok((claimable, claims))
}

} // verus!

verus! {

/// A copy of the rewards per share of each asset.
pub fn copy_per_share(v: &Vec<(AssetInfo, Dec)>) -> (r: Vec<(AssetInfo, Dec)>)
    ensures
        r@ == v@,
{
    let mut r: Vec<(AssetInfo, Dec)> = Vec::new();
    let mut i: usize = 0;
    while i < v.len()
        invariant
            i <= v@.len(),
            r@ == v@.take(i as int),
        decreases v@.len() - i,
    {
        r.push((v[i].0.duplicate(), v[i].1));
        proof {
            assert(v@.take(i + 1) =~= v@.take(i as int).push(v@[i as int]));
        }
        i = i + 1;
    }
    proof {
        assert(v@.take(i as int) =~= v@);
    }
    r
}

} // verus!

verus! {

/// The position's LP tokens and its claimable generator rewards, before its
/// NTRN rewards are looked at; an error where one is reported and `None`
/// where the arithmetic would abort.
pub open spec fn lockup_info_claims(
    config: Config,
    pool: PoolInfo,
    lockup: LockupInfo,
    balance: u128,
    pending: Option<(u128, Seq<(AssetInfo, u128)>)>,
) -> Option<Result<(u128, u128, Seq<(AssetInfo, u128)>), LockdropError>> {
    match lockup.astroport_lp_transferred {
        Some(t) => Some(Ok((t, 0, Seq::empty()))),
        None => {
            let units = lp_share(lockup.lp_units_locked, balance, pool.amount_in_lockups);
            if pool.is_staked && config.generator is None {
                Some(Err(LockdropError::GeneratorNotSet))
            } else if pool.amount_in_lockups == 0 {
                Some(Err(LockdropError::DivideByZero))
            } else if units > u128::MAX {
                Some(Err(LockdropError::Overflow))
            } else if pool.is_staked && units != 0 {
                match pending {
                    None => None,
                    Some((p, rewards)) => match generator_claims(pool, lockup, units as u128, balance, p, rewards) {
                        None => None,
                        Some(Err(e)) => Some(Err(e)),
                        Some(Ok((base, proxy))) => Some(Ok((units as u128, base, proxy))),
                    },
                }
            } else {
                Some(Ok((units as u128, 0, Seq::empty())))
            }
        },
    }
}

/// Returns what is known of a lockup position of `duration` in a pool: its
/// LP tokens of the pool (the ones transferred, else its share of the pool's
/// `balance`), the generator rewards it could claim now where the pool is
/// staked (with the generator's `pending` base and proxy rewards), and its
/// NTRN rewards, the expected ones where none are recorded yet.
pub fn query_lockup_info(
    config: &Config,
    state: &State,
    pool_type: PoolType,
    pool: &PoolInfo,
    lockup: LockupInfo,
    duration: u64,
    balance: u128,
    pending: Option<(u128, Vec<(AssetInfo, u128)>)>,
) -> (r: Result<LockUpInfoResponse, LockdropError>)
    requires
        coefficients_fit(config.lockup_rewards_info@),
        position_fits(*config, *state, *pool, lockup, duration),
        lockup_info_claims(*config, *pool, lockup, balance, match pending {
            Some((p, v)) => Some((p, v@)),
            None => None,
        }) is Some,
        (lockup.astroport_lp_transferred is None && pool.is_staked && pool.amount_in_lockups != 0)
            ==> lp_share(lockup.lp_units_locked, balance, pool.amount_in_lockups) * decimal_fractional() <= u128::MAX,
    ensures
        ({
            let claims = lockup_info_claims(*config, *pool, lockup, balance, match pending {
                Some((p, v)) => Some((p, v@)),
                None => None,
            })->0;
            let reward = position_reward(*config, *state, *pool, lockup, duration);
            &&& claims is Err ==> r == Err::<LockUpInfoResponse, LockdropError>(claims->Err_0)
            &&& (claims is Ok && reward is Err) ==> r == Err::<LockUpInfoResponse, LockdropError>(reward->Err_0)
            &&& (claims is Ok && reward is Ok) ==> (r matches Ok(info) && {
                &&& info.pool_type == pool_type
                &&& info.lp_units_locked == lockup.lp_units_locked
                &&& info.withdrawal_flag == lockup.withdrawal_flag
                &&& info.ntrn_rewards == reward->Ok_0
                &&& info.duration == duration
                &&& info.generator_ntrn_debt == lockup.generator_ntrn_debt
                &&& info.claimable_generator_astro_debt == claims->Ok_0.1
                &&& info.generator_proxy_debt@ == lockup.generator_proxy_debt@
                &&& info.claimable_generator_proxy_debt@ == claims->Ok_0.2
                &&& info.unlock_timestamp == lockup.unlock_timestamp
                &&& info.astroport_lp_units == Some(claims->Ok_0.0)
                &&& info.astroport_lp_token == pool.lp_token
                &&& info.astroport_lp_transferred == lockup.astroport_lp_transferred
            })
        }),
{
    let mut claimable_astro: u128 = 0;
    let mut claimable_proxy: Vec<(AssetInfo, u128)> = Vec::new();
    let units: u128 = match lockup.astroport_lp_transferred {
        Some(t) => t,
        None => {
            if pool.is_staked && config.generator.is_none() {
                return Err(LockdropError::GeneratorNotSet);
            }
            let units = match lockup_lp_share(lockup.lp_units_locked, balance, pool.amount_in_lockups) {
                Ok(u) => u,
                Err(e) => {
                    return Err(e);
                },
            };
            if pool.is_staked && units != 0 {
                match pending {
                    Some((p, rewards)) => {
                        match lockup_generator_claims(pool, &lockup, units, balance, p, &rewards) {
                            Ok((base, proxy)) => {
                                claimable_astro = base;
                                claimable_proxy = proxy;
                            },
                            Err(e) => {
                                return Err(e);
                            },
                        }
                    },
                    None => {
                        proof {
                            assert(false);
                        }
                        return Err(LockdropError::NotFound);
                    },
                }
            }
            units
        },
    };
    let ntrn_rewards = match lockup_position_reward(config, state, pool, &lockup, duration) {
        Ok(v) => v,
        Err(e) => {
            return Err(e);
        },
    };
    Ok(LockUpInfoResponse {
        pool_type,
        lp_units_locked: lockup.lp_units_locked,
        withdrawal_flag: lockup.withdrawal_flag,
        ntrn_rewards,
        duration,
        generator_ntrn_debt: lockup.generator_ntrn_debt,
        claimable_generator_astro_debt: claimable_astro,
        generator_proxy_debt: lockup.generator_proxy_debt,
        claimable_generator_proxy_debt: claimable_proxy,
        unlock_timestamp: lockup.unlock_timestamp,
        astroport_lp_units: Some(units),
        astroport_lp_token: pool.lp_token.clone(),
        astroport_lp_transferred: lockup.astroport_lp_transferred,
    })
}

} // verus!

verus! {

/// A position holds no more of the pool's LP balance than the pool has,
/// when its units are among those locked.
pub proof fn law_lp_share_within_balance(lp_units_locked: u128, balance: u128, amount_in_lockups: u128)
    requires
        lp_units_locked <= amount_in_lockups,
        amount_in_lockups != 0,
    ensures
        0 <= lp_share(lp_units_locked, balance, amount_in_lockups) <= balance,
{
    crate::numeric::lemma_scaled_fraction_bounds(lp_units_locked as int, balance as int, amount_in_lockups as int);
}

} // verus!
