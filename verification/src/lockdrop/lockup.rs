//! Creating the lockdrop, configuring it, and opening, growing and
//! withdrawing from lockup positions.
use crate::lockdrop::math::{
    find_lockup_rewards_info,
    calculate_max_withdrawal_percent_allowed, calculate_weight, coefficients_fit,
    find_rewards_info, law_max_withdrawal_non_increasing, max_withdrawal_percent, weight_of,
    windows_fit, percent_computable,
};
use crate::lockdrop::types::{
    untrn_denom, Coin, Config, InstantiateMsg, LockdropError, LockupInfo, LockupInfoV1, LockupRewardsInfo,
    PoolInfo, PoolType, State, UserInfo,
};
use crate::numeric::{
    decimal_fractional, lemma_scaled_fraction_bounds, u128_to_decimal, u256_checked_add,
    u256_checked_sub, u256_modulus, Dec, U256,
};
use crate::vesting::types::AssetInfo;
use vstd::prelude::*;

verus! {

/// The minimum number of lockup positions a user may be allowed.
pub const MIN_POSITIONS_PER_USER: u32 = 1;

/// Whether some rewards info has a zero duration.
pub open spec fn has_zero_duration(infos: Seq<LockupRewardsInfo>) -> bool {
    exists|i: int| 0 <= i < infos.len() && #[trigger] infos[i].duration == 0
}

/// Creates the lockdrop: checks that it starts no earlier than `now`, that the
/// duration bounds are positive and ordered, that every rewards info has a
/// positive duration, and that users may hold at least one position. The
/// owner is the one given, else the creator; the incentives start at zero.
pub fn instantiate(now: u64, sender: String, msg: InstantiateMsg) -> (r: Result<
    (Config, State),
    LockdropError,
>)
    ensures
        now > msg.init_timestamp ==> r == Err::<(Config, State), LockdropError>(
            LockdropError::InvalidInitTimestamp(now),
        ),
        (now <= msg.init_timestamp && (msg.max_lock_duration < msg.min_lock_duration
            || msg.min_lock_duration == 0)) ==> r == Err::<(Config, State), LockdropError>(
            LockdropError::InvalidLockupDurations,
        ),
        (now <= msg.init_timestamp && msg.min_lock_duration <= msg.max_lock_duration
            && msg.min_lock_duration != 0 && msg.lockup_rewards_info@.len() == 0) ==> r == Err::<
            (Config, State),
            LockdropError,
        >(LockdropError::InvalidLockupRewardsInfo),
        (now <= msg.init_timestamp && msg.min_lock_duration <= msg.max_lock_duration
            && msg.min_lock_duration != 0 && msg.lockup_rewards_info@.len() != 0
            && has_zero_duration(msg.lockup_rewards_info@)) ==> r == Err::<
            (Config, State),
            LockdropError,
        >(LockdropError::InvalidRewardsDuration),
        (now <= msg.init_timestamp && msg.min_lock_duration <= msg.max_lock_duration
            && msg.min_lock_duration != 0 && msg.lockup_rewards_info@.len() != 0
            && !has_zero_duration(msg.lockup_rewards_info@) && msg.max_positions_per_user
            < MIN_POSITIONS_PER_USER) ==> r == Err::<(Config, State), LockdropError>(
            LockdropError::InvalidMaxPositions,
        ),
        r is Ok <==> (now <= msg.init_timestamp && msg.min_lock_duration <= msg.max_lock_duration
            && msg.min_lock_duration != 0 && msg.lockup_rewards_info@.len() != 0
            && !has_zero_duration(msg.lockup_rewards_info@) && msg.max_positions_per_user
            >= MIN_POSITIONS_PER_USER),
        r matches Ok((c, s)) ==> {
            &&& c.owner == (match msg.owner {
                Some(o) => o,
                None => sender,
            })
            &&& c.token_info_manager == msg.token_info_manager
            &&& c.credits_contract == msg.credits_contract
            &&& c.auction_contract == msg.auction_contract
            &&& c.generator is None
            &&& c.init_timestamp == msg.init_timestamp
            &&& c.lock_window == msg.lock_window
            &&& c.withdrawal_window == msg.withdrawal_window
            &&& c.min_lock_duration == msg.min_lock_duration
            &&& c.max_lock_duration == msg.max_lock_duration
            &&& c.lockdrop_incentives == 0
            &&& c.max_positions_per_user == msg.max_positions_per_user
            &&& c.lockup_rewards_info@ == msg.lockup_rewards_info@
            &&& s.total_incentives_share == 0
        },
{
    if now > msg.init_timestamp {
        return Err(LockdropError::InvalidInitTimestamp(now));
    }
    if msg.max_lock_duration < msg.min_lock_duration || msg.min_lock_duration == 0u64 {
        return Err(LockdropError::InvalidLockupDurations);
    }
    if msg.lockup_rewards_info.len() == 0 {
        return Err(LockdropError::InvalidLockupRewardsInfo);
    }
    let mut i: usize = 0;
    while i < msg.lockup_rewards_info.len()
        invariant
            i <= msg.lockup_rewards_info@.len(),
            now <= msg.init_timestamp,
            msg.min_lock_duration <= msg.max_lock_duration,
            msg.min_lock_duration != 0,
            msg.lockup_rewards_info@.len() != 0,
            forall|j: int| 0 <= j < i ==> #[trigger] msg.lockup_rewards_info@[j].duration != 0,
        decreases msg.lockup_rewards_info@.len() - i,
    {
        if msg.lockup_rewards_info[i].duration == 0 {
            proof {
                assert(msg.lockup_rewards_info@[i as int].duration == 0);
            }
            return Err(LockdropError::InvalidRewardsDuration);
        }
        i = i + 1;
    }
    if msg.max_positions_per_user < MIN_POSITIONS_PER_USER {
        return Err(LockdropError::InvalidMaxPositions);
    }
    let owner = match msg.owner {
        Some(o) => o,
        None => sender,
    };
    let config = Config {
        owner,
        token_info_manager: msg.token_info_manager,
        credits_contract: msg.credits_contract,
        auction_contract: msg.auction_contract,
        generator: None,
        init_timestamp: msg.init_timestamp,
        lock_window: msg.lock_window,
        withdrawal_window: msg.withdrawal_window,
        min_lock_duration: msg.min_lock_duration,
        max_lock_duration: msg.max_lock_duration,
        lockdrop_incentives: 0,
        max_positions_per_user: msg.max_positions_per_user,
        lockup_rewards_info: msg.lockup_rewards_info,
    };
    Ok((config, State { total_incentives_share: 0 }))
}

/// The first coin of the NTRN denomination among `funds`.
pub open spec fn first_untrn(funds: Seq<Coin>) -> Option<Coin>
    decreases funds.len(),
{
    if funds.len() == 0 {
        None
    } else if funds[0].denom@ == "untrn"@ {
        Some(funds[0])
    } else {
        first_untrn(funds.drop_first())
    }
}

/// Facilitates increasing NTRN incentives that are to be distributed as
/// Lockdrop participation reward: anyone may add the NTRN sent along, until
/// the withdrawal window closes. Returns the new configuration and the amount added.
pub fn handle_increasing_ntrn_incentives(config: Config, now: u64, funds: &Vec<Coin>) -> (r:
    Result<(Config, u128), LockdropError>)
    requires
        windows_fit(config),
    ensures
        now >= config.init_timestamp + config.lock_window + config.withdrawal_window ==> r
            == Err::<(Config, u128), LockdropError>(LockdropError::LockWindowClosed),
        now < config.init_timestamp + config.lock_window + config.withdrawal_window ==> match first_untrn(
            funds@,
        ) {
            None => r == Err::<(Config, u128), LockdropError>(LockdropError::IncentiveNotFound),
            Some(c) => if config.lockdrop_incentives + c.amount > u128::MAX {
                r == Err::<(Config, u128), LockdropError>(LockdropError::Overflow)
            } else {
                r == Ok::<(Config, u128), LockdropError>(
                    (
                        Config {
                            lockdrop_incentives: (config.lockdrop_incentives + c.amount) as u128,
                            ..config
                        },
                        c.amount,
                    ),
                )
            },
        },
{
    if now >= config.init_timestamp + config.lock_window + config.withdrawal_window {
        return Err(LockdropError::LockWindowClosed);
    }
    let untrn = untrn_denom();
    let mut i: usize = 0;
    proof {
        assert(funds@.skip(0) =~= funds@);
    }
    while i < funds.len()
        invariant
            i <= funds@.len(),
            untrn@ == "untrn"@,
            now < config.init_timestamp + config.lock_window + config.withdrawal_window,
            first_untrn(funds@) == first_untrn(funds@.skip(i as int)),
        decreases funds@.len() - i,
    {
        if funds[i].denom.eq(&untrn) {
            proof {
                assert(funds@.skip(i as int)[0] == funds@[i as int]);
            }
            let amount = funds[i].amount;
            let mut config = config;
            match config.lockdrop_incentives.checked_add(amount) {
                Some(v) => {
                    config.lockdrop_incentives = v;
                },
                None => {
                    return Err(LockdropError::Overflow);
                },
            }
            return Ok((config, amount));
        }
        proof {
            assert(funds@.skip(i as int).drop_first() =~= funds@.skip(i + 1));
        }
        i = i + 1;
    }
    Err(LockdropError::IncentiveNotFound)
}

/// Checks that a token transfer brought a positive amount.
pub fn check_tokens_sent(amount: u128) -> (r: Result<(), LockdropError>)
    ensures
        r is Ok <==> amount != 0,
        r matches Err(e) ==> e == LockdropError::InvalidTokensSent,
{
    if amount == 0 {
        Err(LockdropError::InvalidTokensSent)
    } else {
        Ok(())
    }
}

/// The error, if any, that initializing a pool reports, in the order the
/// checks are made.
pub open spec fn initialize_pool_error(
    config: Config,
    state: State,
    pool_info: PoolInfo,
    now: u64,
    sender: Seq<char>,
    cw20_sender: Seq<char>,
    incentives_share: u128,
) -> Option<LockdropError> {
    if cw20_sender != config.auction_contract@ {
        Some(LockdropError::Unauthorized)
    } else if !lock_window_open(config, now) {
        Some(LockdropError::PoolWindowClosed)
    } else if sender != pool_info.lp_token@ {
        Some(LockdropError::UnknownCw20Token)
    } else if pool_info.is_staked {
        Some(LockdropError::AlreadySupported)
    } else if config.generator is None {
        Some(LockdropError::GeneratorNotSet)
    } else if state.total_incentives_share + incentives_share > u128::MAX {
        Some(LockdropError::Overflow)
    } else {
        None
    }
}

/// Admin function to initialize an LP pool, called through the auction's
/// transfer of the pool's LP tokens while the deposit window is open: the
/// pool gets its share of the incentives and its tokens are staked with the
/// generator. A pool is initialized once; a second initialization is refused
/// as already supported.
pub fn handle_initialize_pool(
    config: &Config,
    state: State,
    pool_info: PoolInfo,
    now: u64,
    sender: &String,
    cw20_sender: &String,
    incentives_share: u128,
) -> (r: Result<(PoolInfo, State), LockdropError>)
    requires
        cw20_sender@ == config.auction_contract@ ==> config.init_timestamp + config.lock_window <= u64::MAX,
    ensures
        ({
            let e = initialize_pool_error(*config, state, pool_info, now, sender@, cw20_sender@, incentives_share);
            &&& r is Err <==> e is Some
            &&& r matches Err(x) ==> Some(x) == e
            &&& r matches Ok((p, s)) ==> {
                &&& p == (PoolInfo { incentives_share, is_staked: true, ..pool_info })
                &&& s.total_incentives_share == state.total_incentives_share + incentives_share
            }
        }),
{
    if !cw20_sender.eq(&config.auction_contract) {
        return Err(LockdropError::Unauthorized);
    }
    if now >= config.init_timestamp + config.lock_window {
        return Err(LockdropError::PoolWindowClosed);
    }
    if !sender.eq(&pool_info.lp_token) {
        return Err(LockdropError::UnknownCw20Token);
    }
    if pool_info.is_staked {
        return Err(LockdropError::AlreadySupported);
    }
    if config.generator.is_none() {
        return Err(LockdropError::GeneratorNotSet);
    }
    let mut pool_info = pool_info;
    pool_info.incentives_share = incentives_share;
    pool_info.is_staked = true;
    match state.total_incentives_share.checked_add(incentives_share) {
        Some(v) => Ok((pool_info, State { total_incentives_share: v })),
        None => Err(LockdropError::Overflow),
    }
}

/// A pool is initialized at most once: what an initialization leaves is
/// refused as already supported by any later initialization through the
/// auction while the deposit window is open and with the pool's own token.
pub proof fn law_initialize_pool_once(
    config: Config,
    state: State,
    pool_info: PoolInfo,
    now: u64,
    later: u64,
    sender: Seq<char>,
    incentives_share: u128,
    again_share: u128,
)
    requires
        initialize_pool_error(config, state, pool_info, now, sender, config.auction_contract@, incentives_share) is None,
        lock_window_open(config, later),
    ensures
        ({
            let p = PoolInfo { incentives_share, is_staked: true, ..pool_info };
            let s = State { total_incentives_share: (state.total_incentives_share + incentives_share) as u128 };
            initialize_pool_error(config, s, p, later, sender, config.auction_contract@, again_share)
                == Some(LockdropError::AlreadySupported)
        }),
{
}

/// The first pool, in the given order, whose LP tokens are staked.
pub open spec fn first_staked(pools: Seq<(PoolType, bool)>) -> Option<PoolType>
    decreases pools.len(),
{
    if pools.len() == 0 {
        None
    } else if pools[0].1 {
        Some(pools[0].0)
    } else {
        first_staked(pools.drop_first())
    }
}

/// Admin function to update configuration parameters: only the owner may.
/// The generator may only be replaced while no pool's LP tokens are staked;
/// `pools_staked` gives each pool, in key order, and whether it is staked.
pub fn handle_update_config(
    config: Config,
    sender: &String,
    auction_contract_address: Option<String>,
    generator_address: Option<String>,
    pools_staked: &Vec<(PoolType, bool)>,
) -> (r: Result<Config, LockdropError>)
    ensures
        sender@ != config.owner@ ==> r == Err::<Config, LockdropError>(LockdropError::Unauthorized),
        (sender@ == config.owner@ && generator_address is Some && config.generator is Some
            && first_staked(pools_staked@) is Some) ==> r == Err::<Config, LockdropError>(
            LockdropError::LpTokensStaked(first_staked(pools_staked@).unwrap()),
        ),
        r is Ok <==> (sender@ == config.owner@ && !(generator_address is Some
            && config.generator is Some && first_staked(pools_staked@) is Some)),
        r matches Ok(c) ==> c == (Config {
            auction_contract: match auction_contract_address {
                Some(a) => a,
                None => config.auction_contract,
            },
            generator: match generator_address {
                Some(g) => Some(g),
                None => config.generator,
            },
            ..config
        }),
{
    if !sender.eq(&config.owner) {
        return Err(LockdropError::Unauthorized);
    }
    let mut cfg = config;
    if let Some(auction) = auction_contract_address {
        cfg.auction_contract = auction;
    }
    if let Some(generator) = generator_address {
        if cfg.generator.is_some() {
            let mut i: usize = 0;
            proof {
                assert(pools_staked@.skip(0) =~= pools_staked@);
            }
            while i < pools_staked.len()
                invariant
                    i <= pools_staked@.len(),
                    sender@ == config.owner@,
                    cfg.generator == config.generator,
                    config.generator is Some,
                    generator_address is Some,
                    first_staked(pools_staked@) == first_staked(pools_staked@.skip(i as int)),
                decreases pools_staked@.len() - i,
            {
                if pools_staked[i].1 {
                    proof {
                        assert(pools_staked@.skip(i as int)[0] == pools_staked@[i as int]);
                    }
                    return Err(LockdropError::LpTokensStaked(pools_staked[i].0));
                }
                proof {
                    assert(pools_staked@.skip(i as int).drop_first() =~= pools_staked@.skip(i + 1));
                }
                i = i + 1;
            }
        }
        cfg.generator = Some(generator);
    }
    Ok(cfg)
}

/// A pool that holds nothing yet, for the given LP token.
pub fn new_pool(lp_token: String) -> (r: PoolInfo)
    ensures
        r.lp_token == lp_token,
        r.amount_in_lockups == 0,
        r.incentives_share == 0,
        r.weighted_amount.value() == 0,
        r.generator_ntrn_per_share.atomics == 0,
        r.generator_proxy_per_share@.len() == 0,
        !r.is_staked,
{
    PoolInfo {
        lp_token,
        amount_in_lockups: 0,
        incentives_share: 0,
        weighted_amount: U256::zero(),
        generator_ntrn_per_share: Dec::zero(),
        generator_proxy_per_share: Vec::new(),
        is_staked: false,
    }
}

/// Sets the LP tokens of the two pools and the generator: only the owner or
/// the token info manager may. Both pools start afresh.
pub fn handle_set_token_info(
    config: Config,
    sender: &String,
    usdc_token: String,
    atom_token: String,
    generator: String,
) -> (r: Result<(Config, PoolInfo, PoolInfo), LockdropError>)
    ensures
        (sender@ != config.owner@ && sender@ != config.token_info_manager@) ==> r == Err::<
            (Config, PoolInfo, PoolInfo),
            LockdropError,
        >(LockdropError::Unauthorized),
        (sender@ == config.owner@ || sender@ == config.token_info_manager@) ==> (r is Ok && ({
            let (c, atom, usdc) = r.unwrap();
            &&& c == (Config { generator: Some(generator), ..config })
            &&& atom.lp_token == atom_token && atom.amount_in_lockups == 0 && !atom.is_staked
                && atom.incentives_share == 0 && atom.weighted_amount.value() == 0
            &&& usdc.lp_token == usdc_token && usdc.amount_in_lockups == 0 && !usdc.is_staked
                && usdc.incentives_share == 0 && usdc.weighted_amount.value() == 0
        })),
{
    if !sender.eq(&config.owner) && !sender.eq(&config.token_info_manager) {
        return Err(LockdropError::Unauthorized);
    }
    let atom = new_pool(atom_token);
    let usdc = new_pool(usdc_token);
    let mut config = config;
    config.generator = Some(generator);
    Ok((config, atom, usdc))
}

} // verus!

verus! {

/// Whether the lockup window is still open at `now`.
pub open spec fn lock_window_open(config: Config, now: u64) -> bool {
    now < config.init_timestamp + config.lock_window
}

/// The error, if any, that the checks of a lockup deposit made before the
/// position is looked at report, in the order they are made.
pub open spec fn increase_pool_error(
    config: Config,
    now: u64,
    sender: Seq<char>,
    pool: PoolInfo,
    duration: u64,
    amount: u128,
) -> Option<LockdropError> {
    if sender != config.auction_contract@ {
        Some(LockdropError::Unauthorized)
    } else if !lock_window_open(config, now) {
        Some(LockdropError::LockWindowClosed)
    } else if find_rewards_info(config.lockup_rewards_info@, duration) is None {
        Some(LockdropError::InvalidDuration)
    } else if duration > config.max_lock_duration || duration < config.min_lock_duration {
        Some(LockdropError::LockupDurationOutOfRange(config.min_lock_duration, config.max_lock_duration))
    } else if ({
        let w = duration_weight(config, duration, amount);
        w > u128::MAX || pool.weighted_amount.value() + w >= u256_modulus()
            || pool.amount_in_lockups + amount > u128::MAX
    }) {
        Some(LockdropError::Overflow)
    } else {
        None
    }
}

/// The error, if any, that growing a position by `amount` reports, in the
/// order the checks are made.
pub open spec fn increase_lockup_error(
    config: Config,
    now: u64,
    sender: Seq<char>,
    pool: PoolInfo,
    user: UserInfo,
    existing: Option<LockupInfo>,
    total_user_lockup: Option<u128>,
    duration: u64,
    amount: u128,
) -> Option<LockdropError> {
    if increase_pool_error(config, now, sender, pool, duration, amount) is Some {
        increase_pool_error(config, now, sender, pool, duration, amount)
    } else if existing is None && config.max_positions_per_user == user.lockup_positions_index {
        Some(LockdropError::MaxPositionsReached(config.max_positions_per_user))
    } else if (existing matches Some(li) && li.lp_units_locked + amount > u128::MAX)
        || (total_user_lockup matches Some(la) && la + amount > u128::MAX) {
        Some(LockdropError::Overflow)
    } else {
        None
    }
}

/// The weight that a position of `duration` gives `amount` tokens.
pub open spec fn duration_weight(config: Config, duration: u64, amount: u128) -> int {
    weight_of(amount, find_rewards_info(config.lockup_rewards_info@, duration).unwrap().coefficient)
}

/// Grows the position of a user in a pool by `amount` LP tokens locked for
/// `duration`, as the auction deposits them during the lockup window. The
/// position is opened when the user has none of that duration yet, within
/// the user's maximum of positions. Given the pool, the user, the position
/// if any and the user's total in the pool if recorded, returns them updated.
pub fn handle_increase_lockup(
    config: &Config,
    now: u64,
    sender: &String,
    pool: PoolInfo,
    user: UserInfo,
    existing: Option<LockupInfo>,
    total_user_lockup: Option<u128>,
    duration: u64,
    amount: u128,
) -> (r: Result<(PoolInfo, LockupInfo, UserInfo, u128), LockdropError>)
    requires
        coefficients_fit(config.lockup_rewards_info@),
        config.init_timestamp + config.lock_window <= u64::MAX,
        (increase_pool_error(*config, now, sender@, pool, duration, amount) is None
            && existing is None && config.max_positions_per_user != user.lockup_positions_index) ==> (user.lockup_positions_index < u32::MAX
            && config.init_timestamp + config.lock_window + duration + config.withdrawal_window
            <= u64::MAX),
    ensures
        r is Err <==> increase_lockup_error(*config, now, sender@, pool, user, existing, total_user_lockup, duration, amount) is Some,
        r matches Err(e) ==> Some(e) == increase_lockup_error(*config, now, sender@, pool, user, existing, total_user_lockup, duration, amount),
        r matches Ok((p, li, u, total)) ==> {
            &&& p.weighted_amount.value() == pool.weighted_amount.value() + duration_weight(*config, duration, amount)
            &&& p.amount_in_lockups == pool.amount_in_lockups + amount
            &&& p.lp_token == pool.lp_token
            &&& p.incentives_share == pool.incentives_share
            &&& p.generator_ntrn_per_share == pool.generator_ntrn_per_share
            &&& p.generator_proxy_per_share@ == pool.generator_proxy_per_share@
            &&& p.is_staked == pool.is_staked
            &&& total == (match total_user_lockup {
                Some(la) => la + amount,
                None => amount as int,
            })
            &&& match existing {
                Some(old_li) => {
                    &&& li.lp_units_locked == old_li.lp_units_locked + amount
                    &&& li.astroport_lp_transferred == old_li.astroport_lp_transferred
                    &&& li.withdrawal_flag == old_li.withdrawal_flag
                    &&& li.ntrn_rewards == old_li.ntrn_rewards
                    &&& li.generator_ntrn_debt == old_li.generator_ntrn_debt
                    &&& li.generator_proxy_debt@ == old_li.generator_proxy_debt@
                    &&& li.unlock_timestamp == old_li.unlock_timestamp
                    &&& u == user
                },
                None => {
                    &&& li.lp_units_locked == amount
                    &&& li.astroport_lp_transferred is None
                    &&& !li.withdrawal_flag
                    &&& li.ntrn_rewards == 0
                    &&& li.generator_ntrn_debt == 0
                    &&& li.generator_proxy_debt@.len() == 0
                    &&& li.unlock_timestamp == config.init_timestamp + config.lock_window + duration
                        + config.withdrawal_window
                    &&& u.lockup_positions_index == user.lockup_positions_index + 1
                    &&& u.total_ntrn_rewards == user.total_ntrn_rewards
                    &&& u.ntrn_transferred == user.ntrn_transferred
                },
            }
        },
{
    if !sender.eq(&config.auction_contract) {
        return Err(LockdropError::Unauthorized);
    }
    if now >= config.init_timestamp + config.lock_window {
        return Err(LockdropError::LockWindowClosed);
    }
    if find_lockup_rewards_info(&config.lockup_rewards_info, duration).is_none() {
        return Err(LockdropError::InvalidDuration);
    }
    if duration > config.max_lock_duration || duration < config.min_lock_duration {
        return Err(LockdropError::LockupDurationOutOfRange(config.min_lock_duration, config.max_lock_duration));
    }
    let weight = match calculate_weight(amount, duration, config) {
        Ok(w) => w,
        Err(e) => {
            return Err(e);
        },
    };
    let mut pool = pool;
    pool.weighted_amount = match u256_checked_add(pool.weighted_amount, weight) {
        Some(v) => v,
        None => {
            return Err(LockdropError::Overflow);
        },
    };
    pool.amount_in_lockups = match pool.amount_in_lockups.checked_add(amount) {
        Some(v) => v,
        None => {
            return Err(LockdropError::Overflow);
        },
    };
    let mut user = user;
    let lockup = match existing {
        Some(li) => {
            let mut li = li;
            li.lp_units_locked = match li.lp_units_locked.checked_add(amount) {
                Some(v) => v,
                None => {
                    return Err(LockdropError::Overflow);
                },
            };
            li
        },
        None => {
            if config.max_positions_per_user == user.lockup_positions_index {
                return Err(LockdropError::MaxPositionsReached(config.max_positions_per_user));
            }
            user.lockup_positions_index = user.lockup_positions_index + 1;
            LockupInfo {
                lp_units_locked: amount,
                astroport_lp_transferred: None,
                withdrawal_flag: false,
                ntrn_rewards: 0,
                generator_ntrn_debt: 0,
                generator_proxy_debt: Vec::new(),
                unlock_timestamp: config.init_timestamp + config.lock_window + duration
                    + config.withdrawal_window,
            }
        },
    };
    let total = match total_user_lockup {
        Some(la) => match la.checked_add(amount) {
            Some(v) => v,
            None => {
                return Err(LockdropError::Overflow);
            },
        },
        None => amount,
    };
    Ok((pool, lockup, user, total))
}

} // verus!

verus! {

/// The most LP tokens of a position of `lp` tokens that may be withdrawn when
/// the allowed share is `percent` atomic units.
pub open spec fn max_withdrawal_allowed(lp: u128, percent: int) -> int {
    (lp * percent) / decimal_fractional()
}

/// The share of a position that may be withdrawn at `now` under `config`.
pub open spec fn withdrawal_percent(config: Config, now: u64) -> int {
    max_withdrawal_percent(now, config.init_timestamp, config.lock_window, config.withdrawal_window)
}

/// The error, if any, that the checks of a withdrawal made before the limit is
/// computed report.
pub open spec fn withdraw_request_error(
    config: Config,
    now: u64,
    sender: Seq<char>,
    lockup: LockupInfo,
    amount: u128,
) -> Option<LockdropError> {
    if sender != config.auction_contract@ {
        Some(LockdropError::Unauthorized)
    } else if now >= config.init_timestamp + config.lock_window + config.withdrawal_window {
        Some(LockdropError::WithdrawalWindowClosed)
    } else if amount == 0 {
        Some(LockdropError::InvalidWithdrawalRequest)
    } else if lockup.withdrawal_flag {
        Some(LockdropError::WithdrawalAlreadyHappened)
    } else {
        None
    }
}

/// The error, if any, that withdrawing `amount` from a position reports, in
/// the order the checks are made.
pub open spec fn withdraw_error(
    config: Config,
    now: u64,
    sender: Seq<char>,
    pool: PoolInfo,
    lockup: LockupInfo,
    total_user_lockup: Option<u128>,
    duration: u64,
    amount: u128,
) -> Option<LockdropError> {
    let max_allowed = max_withdrawal_allowed(lockup.lp_units_locked, withdrawal_percent(config, now));
    if withdraw_request_error(config, now, sender, lockup, amount) is Some {
        withdraw_request_error(config, now, sender, lockup, amount)
    } else if amount > max_allowed {
        Some(LockdropError::AmountExceedsMaxWithdrawal(max_allowed as u128))
    } else if find_rewards_info(config.lockup_rewards_info@, duration) is None {
        Some(LockdropError::InvalidDuration)
    } else if ({
        let w = duration_weight(config, duration, amount);
        w > u128::MAX || w > pool.weighted_amount.value() || amount > pool.amount_in_lockups
            || (total_user_lockup matches Some(la) && amount > la)
    }) {
        Some(LockdropError::Overflow)
    } else {
        None
    }
}

proof fn lemma_max_withdrawal_within_position(lp: u128, percent: int)
    requires
        0 <= percent <= decimal_fractional(),
    ensures
        0 <= max_withdrawal_allowed(lp, percent) <= lp,
        ((lp * decimal_fractional()) * percent) / decimal_fractional() == lp * percent,
        lp * percent <= lp * decimal_fractional(),
{
    assert(lp * percent <= lp * decimal_fractional()) by (nonlinear_arith)
        requires
            0 <= percent <= decimal_fractional(),
    ;
    lemma_scaled_fraction_bounds(percent, lp as int, decimal_fractional());
    assert(lp * percent == percent * lp) by (nonlinear_arith);
    assert((lp * decimal_fractional()) * percent == decimal_fractional() * (lp * percent)) by (nonlinear_arith);
    vstd::arithmetic::div_mod::lemma_div_multiples_vanish(lp * percent, decimal_fractional());
}

/// Withdraws `amount` LP tokens from a position while the withdrawal window
/// is open: all of it may go during the deposit window, then a share that
/// shrinks to nothing, and only once. A position left empty is removed and
/// the user holds one position less. Given the pool, the user, the position
/// and the user's total in the pool if recorded, returns them updated (no
/// position where it was removed).
pub fn handle_withdraw_from_lockup(
    config: &Config,
    now: u64,
    sender: &String,
    pool: PoolInfo,
    user: UserInfo,
    lockup: LockupInfo,
    total_user_lockup: Option<u128>,
    duration: u64,
    amount: u128,
) -> (r: Result<(PoolInfo, Option<LockupInfo>, UserInfo, u128), LockdropError>)
    requires
        coefficients_fit(config.lockup_rewards_info@),
        windows_fit(*config),
        withdraw_request_error(*config, now, sender@, lockup, amount) is None
            ==> lockup.lp_units_locked * decimal_fractional() <= u128::MAX,
        withdraw_request_error(*config, now, sender@, lockup, amount) is None ==> percent_computable(
            *config,
            now,
        ),
        (withdraw_error(*config, now, sender@, pool, lockup, total_user_lockup, duration, amount) is None
            && lockup.lp_units_locked == amount) ==> user.lockup_positions_index >= 1,
    ensures
        r is Err <==> withdraw_error(*config, now, sender@, pool, lockup, total_user_lockup, duration, amount) is Some,
        r matches Err(e) ==> Some(e) == withdraw_error(*config, now, sender@, pool, lockup, total_user_lockup, duration, amount),
        r matches Ok((p, li, u, total)) ==> {
            &&& p.weighted_amount.value() == pool.weighted_amount.value() - duration_weight(*config, duration, amount)
            &&& p.amount_in_lockups == pool.amount_in_lockups - amount
            &&& p.lp_token == pool.lp_token
            &&& p.incentives_share == pool.incentives_share
            &&& p.generator_ntrn_per_share == pool.generator_ntrn_per_share
            &&& p.generator_proxy_per_share@ == pool.generator_proxy_per_share@
            &&& p.is_staked == pool.is_staked
            &&& total == (match total_user_lockup {
                Some(la) => la - amount,
                None => 0,
            })
            &&& if lockup.lp_units_locked == amount {
                &&& li is None
                &&& u.lockup_positions_index == user.lockup_positions_index - 1
                &&& u.total_ntrn_rewards == user.total_ntrn_rewards
                &&& u.ntrn_transferred == user.ntrn_transferred
            } else {
                &&& li matches Some(nl)
                &&& nl.lp_units_locked == lockup.lp_units_locked - amount
                &&& nl.withdrawal_flag == !lock_window_open(*config, now)
                &&& nl.astroport_lp_transferred == lockup.astroport_lp_transferred
                &&& nl.ntrn_rewards == lockup.ntrn_rewards
                &&& nl.generator_ntrn_debt == lockup.generator_ntrn_debt
                &&& nl.generator_proxy_debt@ == lockup.generator_proxy_debt@
                &&& nl.unlock_timestamp == lockup.unlock_timestamp
                &&& u == user
            }
        },
{
    if !sender.eq(&config.auction_contract) {
        return Err(LockdropError::Unauthorized);
    }
    if now >= config.init_timestamp + config.lock_window + config.withdrawal_window {
        return Err(LockdropError::WithdrawalWindowClosed);
    }
    if amount == 0 {
        return Err(LockdropError::InvalidWithdrawalRequest);
    }
    if lockup.withdrawal_flag {
        return Err(LockdropError::WithdrawalAlreadyHappened);
    }
    let percent = calculate_max_withdrawal_percent_allowed(now, config);
    proof {
        law_max_withdrawal_non_increasing(
            now,
            now,
            config.init_timestamp,
            config.lock_window,
            config.withdrawal_window,
        );
        lemma_max_withdrawal_within_position(lockup.lp_units_locked, percent.atomics as int);
    }
    let lp_decimal = match u128_to_decimal(lockup.lp_units_locked) {
        Some(d) => d,
        None => {
            proof {
                assert(false);
            }
            return Err(LockdropError::Overflow);
        },
    };
    let max_allowed = match lp_decimal.checked_mul(percent) {
        Some(d) => d.to_uint_floor(),
        None => {
            proof {
                assert(false);
            }
            return Err(LockdropError::Overflow);
        },
    };
    if amount > max_allowed {
        return Err(LockdropError::AmountExceedsMaxWithdrawal(max_allowed));
    }
    let mut lockup = lockup;
    if now >= config.init_timestamp + config.lock_window {
        lockup.withdrawal_flag = true;
    }
    lockup.lp_units_locked = lockup.lp_units_locked - amount;
    let weight = match calculate_weight(amount, duration, config) {
        Ok(w) => w,
        Err(e) => {
            return Err(e);
        },
    };
    let mut pool = pool;
    pool.weighted_amount = match u256_checked_sub(pool.weighted_amount, weight) {
        Some(v) => v,
        None => {
            return Err(LockdropError::Overflow);
        },
    };
    pool.amount_in_lockups = match pool.amount_in_lockups.checked_sub(amount) {
        Some(v) => v,
        None => {
            return Err(LockdropError::Overflow);
        },
    };
    let total = match total_user_lockup {
        Some(la) => match la.checked_sub(amount) {
            Some(v) => v,
            None => {
                return Err(LockdropError::Overflow);
            },
        },
        None => 0,
    };
    if lockup.lp_units_locked == 0 {
        let mut user = user;
        user.lockup_positions_index = user.lockup_positions_index - 1;
        Ok((pool, None, user, total))
    } else {
        Ok((pool, Some(lockup), user, total))
    }
}

} // verus!

verus! {

/// During the deposit window, a deposit the auction made can be withdrawn
/// again whole: where a deposit of `amount` for `duration` succeeded and gave
/// `pool_after`, `lockup_after` and `total_after`, withdrawing the same
/// amount reports no error, and it brings the pool's amounts and the user's
/// total back to what they were.
pub proof fn law_withdraw_undoes_increase(
    config: Config,
    now: u64,
    sender: Seq<char>,
    pool: PoolInfo,
    user: UserInfo,
    existing: Option<LockupInfo>,
    total_user_lockup: Option<u128>,
    duration: u64,
    amount: u128,
    pool_after: PoolInfo,
    lockup_after: LockupInfo,
    total_after: u128,
)
    requires
        windows_fit(config),
        increase_lockup_error(config, now, sender, pool, user, existing, total_user_lockup, duration, amount) is None,
        amount != 0,
        existing matches Some(li) ==> !li.withdrawal_flag,
        pool_after.weighted_amount.value() == pool.weighted_amount.value() + duration_weight(config, duration, amount),
        pool_after.amount_in_lockups == pool.amount_in_lockups + amount,
        lockup_after.lp_units_locked == (match existing {
            Some(li) => li.lp_units_locked + amount,
            None => amount as int,
        }),
        lockup_after.withdrawal_flag == (match existing {
            Some(li) => li.withdrawal_flag,
            None => false,
        }),
        total_after == (match total_user_lockup {
            Some(la) => la + amount,
            None => amount as int,
        }),
    ensures
        withdraw_error(config, now, sender, pool_after, lockup_after, Some(total_after), duration, amount) is None,
        pool_after.weighted_amount.value() - duration_weight(config, duration, amount) == pool.weighted_amount.value(),
        pool_after.amount_in_lockups - amount == pool.amount_in_lockups,
        total_after - amount == (match total_user_lockup {
            Some(la) => la as int,
            None => 0,
        }),
{
    assert(withdrawal_percent(config, now) == decimal_fractional());
    let lp = lockup_after.lp_units_locked;
    assert(lp * decimal_fractional() == decimal_fractional() * lp) by (nonlinear_arith);
    vstd::arithmetic::div_mod::lemma_div_multiples_vanish(lp as int, decimal_fractional());
    assert(max_withdrawal_allowed(lp, decimal_fractional()) == lp);
}

} // verus!

verus! {

/// A position stored by the lockdrop's first version, in the current form:
/// its proxy reward debt, where there is one, is owed in the generator's
/// proxy reward asset `reward_asset`, which the generator names; the
/// generator must be set.
pub fn upgrade_lockup_info(config: &Config, old: LockupInfoV1, reward_asset: Option<AssetInfo>) -> (r:
    LockupInfo)
    requires
        config.generator is Some,
        old.generator_proxy_debt != 0 ==> reward_asset is Some,
    ensures
        r.lp_units_locked == old.lp_units_locked,
        r.astroport_lp_transferred == old.astroport_lp_transferred,
        r.withdrawal_flag == old.withdrawal_flag,
        r.ntrn_rewards == old.ntrn_rewards,
        r.generator_ntrn_debt == old.generator_ntrn_debt,
        r.unlock_timestamp == old.unlock_timestamp,
        r.generator_proxy_debt@ == (if old.generator_proxy_debt != 0 {
            seq![(reward_asset.unwrap(), old.generator_proxy_debt)]
        } else {
            Seq::empty()
        }),
{
    let mut debts: Vec<(AssetInfo, u128)> = Vec::new();
    if old.generator_proxy_debt != 0 {
        match reward_asset {
            Some(asset) => {
                debts.push((asset, old.generator_proxy_debt));
            },
            None => {},
        }
    }
    proof {
        if old.generator_proxy_debt != 0 {
            assert(debts@ =~= seq![(reward_asset.unwrap(), old.generator_proxy_debt)]);
        } else {
            assert(debts@ =~= Seq::<(AssetInfo, u128)>::empty());
        }
    }
    LockupInfo {
        lp_units_locked: old.lp_units_locked,
        astroport_lp_transferred: old.astroport_lp_transferred,
        withdrawal_flag: old.withdrawal_flag,
        ntrn_rewards: old.ntrn_rewards,
        generator_ntrn_debt: old.generator_ntrn_debt,
        generator_proxy_debt: debts,
        unlock_timestamp: old.unlock_timestamp,
    }
}

} // verus!

verus! {

/// A deposit never takes a user past the maximum of positions: where the
/// user held at most the maximum before a deposit that succeeded, the user
/// holds at most the maximum after, opening a position or growing one.
pub proof fn law_positions_within_max(
    config: Config,
    now: u64,
    sender: Seq<char>,
    pool: PoolInfo,
    user: UserInfo,
    existing: Option<LockupInfo>,
    total_user_lockup: Option<u128>,
    duration: u64,
    amount: u128,
    user_after: UserInfo,
)
    requires
        user.lockup_positions_index <= config.max_positions_per_user,
        increase_lockup_error(config, now, sender, pool, user, existing, total_user_lockup, duration, amount) is None,
        user_after.lockup_positions_index == (if existing is None {
            user.lockup_positions_index + 1
        } else {
            user.lockup_positions_index as int
        }),
    ensures
        user_after.lockup_positions_index <= config.max_positions_per_user,
{
}

} // verus!
