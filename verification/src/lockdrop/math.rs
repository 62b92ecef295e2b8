//! The lockdrop's reward arithmetic: position weights, incentive shares and
//! withdrawal limits.
use crate::lockdrop::types::{Config, LockdropError, LockupRewardsInfo};
use crate::numeric::{
    decimal_fractional, lemma_scaled_fraction_bounds, lemma_scaled_fraction_monotone,
    u256_checked_mul, u256_is_zero, u256_modulus, Dec, Dec256, U256, DECIMAL_FRACTIONAL,
};
use vstd::prelude::*;

verus! {

/// The first rewards info of `duration`, in the configured order.
pub open spec fn find_rewards_info(infos: Seq<LockupRewardsInfo>, duration: u64) -> Option<
    LockupRewardsInfo,
>
    decreases infos.len(),
{
    if infos.len() == 0 {
        None
    } else if infos[0].duration == duration {
        Some(infos[0])
    } else {
        find_rewards_info(infos.drop_first(), duration)
    }
}

/// Every coefficient leaves room to add one to it.
pub open spec fn coefficients_fit(infos: Seq<LockupRewardsInfo>) -> bool {
    forall|i: int| 0 <= i < infos.len() ==> #[trigger] infos[i].coefficient.value()
        + decimal_fractional() < u256_modulus()
}

/// The weight of `amount` tokens locked with a coefficient: `amount * (1 + c)`, floored.
pub open spec fn weight_of(amount: u128, coefficient: Dec256) -> int {
    (amount * (decimal_fractional() + coefficient.value())) / decimal_fractional()
}

proof fn lemma_find_rewards_info_member(infos: Seq<LockupRewardsInfo>, duration: u64)
    ensures
        find_rewards_info(infos, duration) matches Some(info) ==> exists|i: int|
            0 <= i < infos.len() && infos[i] == info,
    decreases infos.len(),
{
    if infos.len() > 0 && infos[0].duration != duration {
        lemma_find_rewards_info_member(infos.drop_first(), duration);
        if let Some(info) = find_rewards_info(infos, duration) {
            let i = choose|i: int| 0 <= i < infos.drop_first().len() && infos.drop_first()[i] == info;
            assert(infos[i + 1] == info);
        }
    }
}

/// The rewards info of `duration`, if configured.
pub fn find_lockup_rewards_info(infos: &Vec<LockupRewardsInfo>, duration: u64) -> (r: Option<
    LockupRewardsInfo,
>)
    ensures
        r == find_rewards_info(infos@, duration),
{
    let mut i: usize = 0;
    proof {
        assert(infos@.skip(0) =~= infos@);
    }
    while i < infos.len()
        invariant
            i <= infos@.len(),
            find_rewards_info(infos@, duration) == find_rewards_info(infos@.skip(i as int), duration),
        decreases infos@.len() - i,
    {
        if infos[i].duration == duration {
            proof {
                assert(infos@.skip(i as int)[0] == infos@[i as int]);
            }
            return Some(infos[i]);
        }
        proof {
            assert(infos@.skip(i as int).drop_first() =~= infos@.skip(i + 1));
        }
        i = i + 1;
    }
    proof {
        assert(infos@.skip(i as int).len() == 0);
    }
    None
}

/// Returns effective weight for the amount to be used for calculating
/// lockdrop rewards: `amount * (1 + coefficient)` for the coefficient of the
/// duration. An error for a duration without a coefficient, or where the
/// weight does not fit in 128 bits.
pub fn calculate_weight(amount: u128, duration: u64, config: &Config) -> (r: Result<
    U256,
    LockdropError,
>)
    requires
        coefficients_fit(config.lockup_rewards_info@),
    ensures
        match find_rewards_info(config.lockup_rewards_info@, duration) {
            None => r == Err::<U256, LockdropError>(LockdropError::InvalidDuration),
            Some(info) => if weight_of(amount, info.coefficient) <= u128::MAX {
                r is Ok && r.unwrap().value() == weight_of(amount, info.coefficient)
            } else {
                r == Err::<U256, LockdropError>(LockdropError::Overflow)
            },
        },
{
    match find_lockup_rewards_info(&config.lockup_rewards_info, duration) {
        None => Err(LockdropError::InvalidDuration),
        Some(info) => {
            proof {
                lemma_find_rewards_info_member(config.lockup_rewards_info@, duration);
            }
            let lock_weight = match Dec256::one().checked_add(info.coefficient) {
                Some(w) => w,
                None => {
                    proof {
                        assert(false);
                    }
                    return Err(LockdropError::Overflow);
                },
            };
            match lock_weight.checked_mul_uint256(U256::from_u128(amount)) {
                Ok(w) => Ok(U256::from_u128(w)),
                Err(_) => Err(LockdropError::Overflow),
            }
        },
    }
}

/// The incentives of a position: its weight's share of the pool's weight,
/// times the pool's share of all incentive shares, of all the incentives; as
/// a decimal ratio floored to 18 digits, then floored again.
pub open spec fn incentives_ratio(
    lockup_weighted_balance: nat,
    total_weighted_amount: nat,
    pool_incentives_share: nat,
    total_incentives_share: nat,
) -> int {
    ((pool_incentives_share * lockup_weighted_balance) * decimal_fractional()) / ((
    total_incentives_share * total_weighted_amount) as int)
}

/// Where both products fit in 256 bits, the decimal ratio does too.
pub open spec fn incentives_fit(l: nat, w: nat, pool_share: nat, total_share: nat) -> bool {
    (total_share != 0 && w != 0 && pool_share * l < u256_modulus() && total_share * w
        < u256_modulus()) ==> incentives_ratio(l, w, pool_share, total_share) < u256_modulus()
}

/// The incentives of a position of weight `l` in a pool of weight `w`: zero
/// when there are no shares or no weight, an overflow where a product leaves
/// 256 bits or the reward 128 bits.
pub open spec fn lockup_incentives(
    l: nat,
    w: nat,
    pool_share: u128,
    total_share: u128,
    total_incentives: u128,
) -> Result<u128, LockdropError> {
    if total_share == 0 || w == 0 {
        Ok(0)
    } else if pool_share * l >= u256_modulus() || total_share * w >= u256_modulus() {
        Err(LockdropError::Overflow)
    } else {
        let reward = (total_incentives * incentives_ratio(l, w, pool_share as nat, total_share as nat))
            / decimal_fractional();
        if reward > u128::MAX {
            Err(LockdropError::Overflow)
        } else {
            Ok(reward as u128)
        }
    }
}

/// Calculates NTRN rewards for a particular lockup position: zero when there
/// are no incentive shares or no weight; else the pool's share of the
/// incentives, in proportion to the position's weight. An error where the
/// intermediate products do not fit in 256 bits or the result in 128 bits.
pub fn calculate_astro_incentives_for_lockup(
    lockup_weighted_balance: U256,
    total_weighted_amount: U256,
    pool_incentives_share: u128,
    total_incentives_share: u128,
    total_lockdrop_incentives: u128,
) -> (r: Result<u128, LockdropError>)
    requires
        incentives_fit(
            lockup_weighted_balance.value(),
            total_weighted_amount.value(),
            pool_incentives_share as nat,
            total_incentives_share as nat,
        ),
    ensures
        r == lockup_incentives(
            lockup_weighted_balance.value(),
            total_weighted_amount.value(),
            pool_incentives_share,
            total_incentives_share,
            total_lockdrop_incentives,
        ),
{
    if total_incentives_share == 0 || u256_is_zero(total_weighted_amount) {
        return Ok(0);
    }
    let numerator = match u256_checked_mul(U256::from_u128(pool_incentives_share), lockup_weighted_balance) {
        Some(n) => n,
        None => {
            return Err(LockdropError::Overflow);
        },
    };
    let denominator = match u256_checked_mul(U256::from_u128(total_incentives_share), total_weighted_amount) {
        Some(d) => d,
        None => {
            return Err(LockdropError::Overflow);
        },
    };
    proof {
        let a = total_incentives_share as int;
        let b = total_weighted_amount.value() as int;
        assert(a * b != 0) by (nonlinear_arith)
            requires
                a != 0,
                b != 0,
        ;
    }
    let ratio = match Dec256::from_ratio(numerator, denominator) {
        Some(q) => q,
        None => {
            proof {
                assert(false);
            }
            return Err(LockdropError::Overflow);
        },
    };
    match ratio.checked_mul_uint256(U256::from_u128(total_lockdrop_incentives)) {
        Ok(v) => Ok(v),
        Err(_) => Err(LockdropError::Overflow),
    }
}

/// A position never earns more than all the incentives: when its weight is
/// within the pool's weight and the pool's share within all shares, the
/// ratio is at most one and the reward at most the incentives.
pub proof fn law_lockup_incentives_within_total(
    lockup_weighted_balance: nat,
    total_weighted_amount: nat,
    pool_incentives_share: nat,
    total_incentives_share: nat,
    total_lockdrop_incentives: nat,
)
    requires
        lockup_weighted_balance <= total_weighted_amount,
        pool_incentives_share <= total_incentives_share,
        total_weighted_amount > 0,
        total_incentives_share > 0,
    ensures
        0 <= incentives_ratio(
            lockup_weighted_balance,
            total_weighted_amount,
            pool_incentives_share,
            total_incentives_share,
        ) <= decimal_fractional(),
        (total_lockdrop_incentives * incentives_ratio(
            lockup_weighted_balance,
            total_weighted_amount,
            pool_incentives_share,
            total_incentives_share,
        )) / decimal_fractional() <= total_lockdrop_incentives,
{
    let num = pool_incentives_share * lockup_weighted_balance;
    let den = total_incentives_share * total_weighted_amount;
    assert(num <= den) by (nonlinear_arith)
        requires
            lockup_weighted_balance <= total_weighted_amount,
            pool_incentives_share <= total_incentives_share,
            num == pool_incentives_share * lockup_weighted_balance,
            den == total_incentives_share * total_weighted_amount,
    ;
    assert(den > 0) by (nonlinear_arith)
        requires
            total_weighted_amount > 0,
            total_incentives_share > 0,
            den == total_incentives_share * total_weighted_amount,
    ;
    lemma_scaled_fraction_bounds(num as int, decimal_fractional(), den as int);
    let ratio = incentives_ratio(
        lockup_weighted_balance,
        total_weighted_amount,
        pool_incentives_share,
        total_incentives_share,
    );
    lemma_scaled_fraction_bounds(ratio, total_lockdrop_incentives as int, decimal_fractional());
    assert(ratio * total_lockdrop_incentives == total_lockdrop_incentives * ratio) by (nonlinear_arith);
}

/// The weights of positions, added up.
pub open spec fn weights_sum(ls: Seq<nat>) -> nat
    decreases ls.len(),
{
    if ls.len() == 0 {
        0
    } else {
        weights_sum(ls.drop_last()) + ls.last()
    }
}

/// The rewards of positions of weights `ls` in a pool of weight `w`, added
/// up; a position whose reward cannot be computed counts as nothing.
pub open spec fn pool_rewards_sum(
    ls: Seq<nat>,
    w: nat,
    pool_share: u128,
    total_share: u128,
    total_incentives: u128,
) -> int
    decreases ls.len(),
{
    if ls.len() == 0 {
        0
    } else {
        pool_rewards_sum(ls.drop_last(), w, pool_share, total_share, total_incentives) + match lockup_incentives(
            ls.last(),
            w,
            pool_share,
            total_share,
            total_incentives,
        ) {
            Ok(r) => r as int,
            Err(_) => 0,
        }
    }
}

proof fn lemma_lockup_reward_bound(l: nat, w: nat, pool_share: u128, total_share: u128, total_incentives: u128)
    requires
        total_share > 0,
        w > 0,
        lockup_incentives(l, w, pool_share, total_share, total_incentives) is Ok,
    ensures
        lockup_incentives(l, w, pool_share, total_share, total_incentives)->Ok_0 * (total_share * w)
            <= total_incentives * pool_share * l,
{
    let f = decimal_fractional() as int;
    let d = total_share * w;
    let n = (pool_share * l) * f;
    let q = n / d;
    let r = (total_incentives * q) / f;
    assert(d > 0) by (nonlinear_arith)
        requires
            total_share > 0,
            w > 0,
            d == total_share * w,
    ;
    assert(n >= 0) by (nonlinear_arith)
        requires
            n == (pool_share * l) * f,
            f > 0,
    ;
    vstd::arithmetic::div_mod::lemma_fundamental_div_mod(n, d);
    vstd::arithmetic::div_mod::lemma_mod_bound(n, d);
    assert(q * d <= n) by (nonlinear_arith)
        requires
            n == d * q + n % d,
            n % d >= 0,
    ;
    assert(q >= 0) by (nonlinear_arith)
        requires
            q * d <= n,
            n >= 0,
            d > 0,
            n == d * q + n % d,
            n % d < d,
    ;
    let iq = total_incentives * q;
    vstd::arithmetic::div_mod::lemma_fundamental_div_mod(iq, f);
    vstd::arithmetic::div_mod::lemma_mod_bound(iq, f);
    assert(r * f <= iq) by (nonlinear_arith)
        requires
            iq == f * r + iq % f,
            iq % f >= 0,
    ;
    assert(r * d <= total_incentives * pool_share * l) by (nonlinear_arith)
        requires
            r * f <= iq,
            iq == total_incentives * q,
            q * d <= n,
            n == (pool_share * l) * f,
            f > 0,
            d > 0,
            total_incentives >= 0,
    ;
    assert(lockup_incentives(l, w, pool_share, total_share, total_incentives)->Ok_0 == r);
}

/// The lockdrop never promises more than its incentives: the rewards of a
/// pool's positions, whose weights add up to at most the pool's weight, add
/// up to at most the pool's part of the incentives, and so to at most all
/// of them.
pub proof fn law_pool_rewards_within_share(
    ls: Seq<nat>,
    w: nat,
    pool_share: u128,
    total_share: u128,
    total_incentives: u128,
)
    requires
        weights_sum(ls) <= w,
        pool_share <= total_share,
    ensures
        pool_rewards_sum(ls, w, pool_share, total_share, total_incentives) * total_share
            <= total_incentives * pool_share,
        0 <= pool_rewards_sum(ls, w, pool_share, total_share, total_incentives) <= total_incentives,
    decreases ls.len(),
{
    let sum = pool_rewards_sum(ls, w, pool_share, total_share, total_incentives);
    if total_share == 0 || w == 0 {
        lemma_pool_rewards_zero(ls, w, pool_share, total_share, total_incentives);
    } else {
        lemma_pool_rewards_weighted(ls, w, pool_share, total_share, total_incentives);
        let d = total_share * w;
        let c = total_incentives * pool_share;
        assert(sum * d <= c * weights_sum(ls));
        assert(sum * total_share <= c) by (nonlinear_arith)
            requires
                sum * d <= c * weights_sum(ls),
                d == total_share * w,
                weights_sum(ls) <= w,
                w > 0,
                c >= 0,
        ;
        assert(sum <= total_incentives) by (nonlinear_arith)
            requires
                sum * total_share <= total_incentives * pool_share,
                pool_share <= total_share,
                total_share > 0,
                total_incentives >= 0,
        ;
    }
}

proof fn lemma_pool_rewards_zero(ls: Seq<nat>, w: nat, pool_share: u128, total_share: u128, total_incentives: u128)
    requires
        total_share == 0 || w == 0,
    ensures
        pool_rewards_sum(ls, w, pool_share, total_share, total_incentives) == 0,
    decreases ls.len(),
{
    if ls.len() > 0 {
        lemma_pool_rewards_zero(ls.drop_last(), w, pool_share, total_share, total_incentives);
    }
}

proof fn lemma_pool_rewards_weighted(ls: Seq<nat>, w: nat, pool_share: u128, total_share: u128, total_incentives: u128)
    requires
        total_share > 0,
        w > 0,
    ensures
        pool_rewards_sum(ls, w, pool_share, total_share, total_incentives) >= 0,
        pool_rewards_sum(ls, w, pool_share, total_share, total_incentives) * (total_share * w)
            <= (total_incentives * pool_share) * weights_sum(ls),
    decreases ls.len(),
{
    if ls.len() > 0 {
        let prev = ls.drop_last();
        lemma_pool_rewards_weighted(prev, w, pool_share, total_share, total_incentives);
        let a = pool_rewards_sum(prev, w, pool_share, total_share, total_incentives);
        let l = ls.last();
        let d = total_share * w;
        let c = total_incentives * pool_share;
        let r: int = match lockup_incentives(l, w, pool_share, total_share, total_incentives) {
            Ok(v) => v as int,
            Err(_) => 0,
        };
        if lockup_incentives(l, w, pool_share, total_share, total_incentives) is Ok {
            lemma_lockup_reward_bound(l, w, pool_share, total_share, total_incentives);
        }
        assert(r * d <= c * l) by (nonlinear_arith)
            requires
                r == 0 || r * d <= total_incentives * pool_share * l,
                c == total_incentives * pool_share,
                c >= 0,
                l >= 0,
                d >= 0,
        ;
        assert((a + r) * d <= c * (weights_sum(prev) + l)) by (nonlinear_arith)
            requires
                a * d <= c * weights_sum(prev),
                r * d <= c * l,
        ;
    }
}

/// The share of a position that may be withdrawn at `now`, in atomic units:
/// all of it during the deposit window, half during the first half of the
/// withdrawal window, then linearly less down to nothing at its end.
pub open spec fn max_withdrawal_percent(now: u64, init: u64, lock_window: u64, withdrawal_window: u64) -> int {
    let cutoff_init = init + lock_window;
    let cutoff_second = cutoff_init + withdrawal_window / 2;
    let cutoff_final = cutoff_init + withdrawal_window;
    if now < cutoff_init {
        decimal_fractional()
    } else if now <= cutoff_second {
        decimal_fractional() / 2
    } else if now < cutoff_final {
        ((50 * (cutoff_final - now)) * decimal_fractional()) / ((100 * (cutoff_final
            - cutoff_second)) as int)
    } else {
        0
    }
}

/// The end of the lockdrop's withdrawal window is a timestamp.
pub open spec fn windows_fit(config: Config) -> bool {
    config.init_timestamp + config.lock_window + config.withdrawal_window <= u64::MAX
}

/// The arithmetic of the withdrawal limit at `now` stays within 64 bits: the
/// cut-off points it reaches, and, in the second half of the withdrawal
/// window, a hundred times that half's length.
pub open spec fn percent_computable(config: Config, now: u64) -> bool {
    let init_point = config.init_timestamp + config.lock_window;
    let second_point = init_point + config.withdrawal_window / 2;
    let final_point = init_point + config.withdrawal_window;
    &&& init_point <= u64::MAX
    &&& now >= init_point ==> second_point <= u64::MAX
    &&& now > second_point ==> final_point <= u64::MAX
    &&& (now > second_point && now < final_point) ==> 100 * (config.withdrawal_window
        - config.withdrawal_window / 2) <= u64::MAX
}

/// Calculates maximum % of LP balances deposited that can be withdrawn at
/// `current_timestamp`.
pub fn calculate_max_withdrawal_percent_allowed(current_timestamp: u64, config: &Config) -> (r:
    Dec)
    requires
        percent_computable(*config, current_timestamp),
    ensures
        r.atomics == max_withdrawal_percent(
            current_timestamp,
            config.init_timestamp,
            config.lock_window,
            config.withdrawal_window,
        ),
{
    let withdrawal_cutoff_init_point = config.init_timestamp + config.lock_window;
    if current_timestamp < withdrawal_cutoff_init_point {
        return Dec::one();
    }
    let withdrawal_cutoff_second_point = withdrawal_cutoff_init_point + (config.withdrawal_window
        / 2u64);
    if current_timestamp <= withdrawal_cutoff_second_point {
        return Dec { atomics: DECIMAL_FRACTIONAL / 2 };
    }
    let withdrawal_cutoff_final = withdrawal_cutoff_init_point + config.withdrawal_window;
    if current_timestamp < withdrawal_cutoff_final {
        let time_left = withdrawal_cutoff_final - current_timestamp;
        let numerator: u64 = 50u64 * time_left;
        let denominator: u64 = 100u64 * (withdrawal_cutoff_final - withdrawal_cutoff_second_point);
        proof {
            lemma_scaled_fraction_bounds(
                numerator as int,
                decimal_fractional(),
                denominator as int,
            );
        }
        match Dec::from_ratio(numerator as u128, denominator as u128) {
            Some(d) => d,
            None => {
                proof {
                    assert(false);
                }
                Dec::zero()
            },
        }
    } else {
        Dec::zero()
    }
}

proof fn lemma_linear_part_at_most_half(left: int, span: int)
    requires
        0 <= left <= span,
        span > 0,
    ensures
        0 <= ((50 * left) * decimal_fractional()) / (100 * span) <= decimal_fractional() / 2,
{
    lemma_scaled_fraction_bounds(50 * left, decimal_fractional(), 100 * span);
    assert((50 * left) * decimal_fractional() <= (100 * span) * (decimal_fractional() / 2)) by (nonlinear_arith)
        requires
            0 <= left <= span,
    ;
    vstd::arithmetic::div_mod::lemma_div_is_ordered(
        (50 * left) * decimal_fractional(),
        (100 * span) * (decimal_fractional() / 2),
        100 * span,
    );
    vstd::arithmetic::div_mod::lemma_div_multiples_vanish(decimal_fractional() / 2, 100 * span);
}

/// The withdrawal limit never exceeds the whole position, and never grows
/// as time passes.
pub proof fn law_max_withdrawal_non_increasing(
    t1: u64,
    t2: u64,
    init: u64,
    lock_window: u64,
    withdrawal_window: u64,
)
    requires
        t1 <= t2,
        init + lock_window + withdrawal_window <= u64::MAX,
    ensures
        0 <= max_withdrawal_percent(t2, init, lock_window, withdrawal_window)
            <= max_withdrawal_percent(t1, init, lock_window, withdrawal_window)
            <= decimal_fractional(),
{
    let ci = init + lock_window;
    let cs = ci + withdrawal_window / 2;
    let cf = ci + withdrawal_window;
    if cs < t1 && t1 < cf {
        lemma_linear_part_at_most_half(cf - t1, cf - cs);
    }
    if cs < t2 && t2 < cf {
        lemma_linear_part_at_most_half(cf - t2, cf - cs);
    }
    if cs < t1 && t2 < cf {
        lemma_scaled_fraction_monotone(
            50 * (cf - t2),
            50 * (cf - t1),
            decimal_fractional(),
            100 * (cf - cs),
        );
    }
}

} // verus!
