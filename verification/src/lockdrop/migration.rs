//! Moving the lockdrop's liquidity from the old pools to the new ones, and
//! its users' positions along with it.
use crate::lockdrop::types::{
    untrn_denom, Config, LockdropError, LockupInfo, MigrationState, PoolInfo, PoolType,
};
use crate::numeric::{decimal_fractional, u256_modulus, Dec, Dec256, U256};
use crate::vesting::types::AssetInfo;
use vstd::prelude::*;

verus! {

/// The number of users whose positions one migration step moves, where the
/// step does not say.
pub const MIGRATION_USERS_DEFAULT_LIMIT: u32 = 10;

/// Until the migration completes, only migration steps and the contract's
/// own callbacks are accepted.
pub fn check_execute_allowed(state: MigrationState, migration_or_callback: bool) -> (r: Result<
    (),
    LockdropError,
>)
    ensures
        r is Ok <==> (state == MigrationState::Completed || migration_or_callback),
        r matches Err(e) ==> e == LockdropError::MigrationInProgress,
{
    match state {
        MigrationState::Completed => Ok(()),
        _ => if migration_or_callback {
            Ok(())
        } else {
            Err(LockdropError::MigrationInProgress)
        },
    }
}

/// Only the contract itself may invoke its callbacks.
pub fn check_callback_sender(sender: &String, contract: &String) -> (r: Result<(), LockdropError>)
    ensures
        r is Ok <==> sender@ == contract@,
        r matches Err(e) ==> e == LockdropError::ExternalCallback,
{
    if sender.eq(contract) {
        Ok(())
    } else {
        Err(LockdropError::ExternalCallback)
    }
}

/// A slippage tolerance above the maximum.
pub open spec fn slippage_too_high(slippage_tolerance: Option<Dec>, max_slippage: Dec) -> bool {
    match slippage_tolerance {
        Some(s) => s.atomics > max_slippage.atomics,
        None => false,
    }
}

/// Starts moving the liquidity: only in the liquidity stage, and with a
/// slippage tolerance (none counting as zero) no higher than the maximum.
/// Returns the pools to move, in order.
pub fn migrate_liquidity(
    state: MigrationState,
    slippage_tolerance: Option<Dec>,
    max_slippage: Dec,
) -> (r: Result<Vec<PoolType>, LockdropError>)
    ensures
        state != MigrationState::MigrateLiquidity ==> r == Err::<Vec<PoolType>, LockdropError>(
            LockdropError::MigrationWrongState,
        ),
        (state == MigrationState::MigrateLiquidity && slippage_too_high(slippage_tolerance, max_slippage)) ==> r == Err::<Vec<PoolType>, LockdropError>(
            LockdropError::SlippageTooHigh,
        ),
        (state == MigrationState::MigrateLiquidity && !slippage_too_high(slippage_tolerance, max_slippage)) ==> (r matches Ok(v) && v@ == seq![
            PoolType::ATOM,
            PoolType::USDC,
        ]),
{
    if state != MigrationState::MigrateLiquidity {
        return Err(LockdropError::MigrationWrongState);
    }
    let tolerance = match slippage_tolerance {
        Some(s) => s,
        None => Dec::zero(),
    };
    if tolerance.atomics > max_slippage.atomics {
        return Err(LockdropError::SlippageTooHigh);
    }
    let mut pools: Vec<PoolType> = Vec::new();
    pools.push(PoolType::ATOM);
    pools.push(PoolType::USDC);
    proof {
        assert(pools@ =~= seq![PoolType::ATOM, PoolType::USDC]);
    }
    Ok(pools)
}

/// The first step of moving a pool: with the generator set, all the pool's
/// locked LP tokens are unstaked and withdrawn from the old pool. Returns
/// that amount.
pub fn migrate_pair_step_1(config: &Config, pool: &PoolInfo) -> (r: Result<u128, LockdropError>)
    ensures
        config.generator is None ==> r == Err::<u128, LockdropError>(LockdropError::GeneratorNotSet),
        config.generator is Some ==> r == Ok::<u128, LockdropError>(pool.amount_in_lockups),
{
    if config.generator.is_none() {
        return Err(LockdropError::GeneratorNotSet);
    }
    Ok(pool.amount_in_lockups)
}

/// What the second step of moving a pool does.
#[derive(Debug)]
pub struct PairStep2 {
    /// The old pool, with the generator's last base rewards spread over its tokens
    pub pool: PoolInfo,
    /// The NTRN that the withdrawal gave, to provide to the new pool
    pub ntrn_to_new_pool: u128,
    /// The other native denomination of the new pool
    pub token_denom: String,
}

/// The first native denomination other than NTRN among a pool's assets.
pub open spec fn second_leg(assets: Seq<AssetInfo>) -> Option<Seq<char>>
    decreases assets.len(),
{
    if assets.len() == 0 {
        None
    } else {
        match assets[0] {
            AssetInfo::NativeToken { denom } => if denom@ != "untrn"@ {
                Some(denom@)
            } else {
                second_leg(assets.drop_first())
            },
            AssetInfo::Token { .. } => second_leg(assets.drop_first()),
        }
    }
}

/// The first native denomination other than NTRN among a pool's assets.
pub fn find_second_leg(assets: &Vec<AssetInfo>) -> (r: Option<String>)
    ensures
        r is Some <==> second_leg(assets@) is Some,
        r matches Some(d) ==> second_leg(assets@) == Some(d@),
{
    let untrn = untrn_denom();
    let mut i: usize = 0;
    proof {
        assert(assets@.skip(0) =~= assets@);
    }
    while i < assets.len()
        invariant
            i <= assets@.len(),
            untrn@ == "untrn"@,
            second_leg(assets@) == second_leg(assets@.skip(i as int)),
        decreases assets@.len() - i,
    {
        proof {
            assert(assets@.skip(i as int)[0] == assets@[i as int]);
            assert(assets@.skip(i as int).drop_first() =~= assets@.skip(i + 1));
        }
        match &assets[i] {
            AssetInfo::NativeToken { denom } => {
                if !denom.eq(&untrn) {
                    return Some(denom.clone());
                }
            },
            AssetInfo::Token { .. } => {},
        }
        i = i + 1;
    }
    None
}

/// The second step of moving a pool, once its liquidity was withdrawn: the
/// generator's base rewards received since the first step are spread over
/// the pool's locked tokens, and the NTRN the withdrawal gave, with the
/// other leg of the new pool, goes to the new pool. Balances are the
/// contract's before (`prev_*`) and now.
pub fn migrate_pair_step_2(
    config: &Config,
    pool: PoolInfo,
    prev_ntrn_balance: u128,
    current_ntrn_balance: u128,
    prev_reward_amount: u128,
    reward_token_balance: u128,
    new_pool_assets: &Vec<AssetInfo>,
) -> (r: Result<PairStep2, LockdropError>)
    requires
        config.generator is Some ==> prev_ntrn_balance <= current_ntrn_balance,
        (config.generator is Some && prev_reward_amount <= reward_token_balance) ==> (
        pool.amount_in_lockups != 0 && ((reward_token_balance - prev_reward_amount)
            * decimal_fractional()) / (pool.amount_in_lockups as int) <= u128::MAX),
    ensures
        ({
            let received = reward_token_balance - prev_reward_amount;
            let q = (received * decimal_fractional()) / (pool.amount_in_lockups as int);
            &&& config.generator is None ==> r == Err::<PairStep2, LockdropError>(
                LockdropError::GeneratorNotSet,
            )
            &&& (config.generator is Some && (received < 0 || pool.generator_ntrn_per_share.atomics
                + q > u128::MAX)) ==> r == Err::<PairStep2, LockdropError>(LockdropError::Overflow)
            &&& (config.generator is Some && received >= 0 && pool.generator_ntrn_per_share.atomics
                + q <= u128::MAX && second_leg(new_pool_assets@) is None) ==> r == Err::<
                PairStep2,
                LockdropError,
            >(LockdropError::NoSecondLeg)
            &&& (config.generator is Some && received >= 0 && pool.generator_ntrn_per_share.atomics
                + q <= u128::MAX && second_leg(new_pool_assets@) is Some) ==> (r matches Ok(s) && {
                &&& s.pool.generator_ntrn_per_share.atomics == pool.generator_ntrn_per_share.atomics + q
                &&& s.pool.amount_in_lockups == pool.amount_in_lockups
                &&& s.pool.lp_token == pool.lp_token
                &&& s.pool.weighted_amount == pool.weighted_amount
                &&& s.pool.incentives_share == pool.incentives_share
                &&& s.pool.generator_proxy_per_share@ == pool.generator_proxy_per_share@
                &&& s.pool.is_staked == pool.is_staked
                &&& s.ntrn_to_new_pool == current_ntrn_balance - prev_ntrn_balance
                &&& Some(s.token_denom@) == second_leg(new_pool_assets@)
            })
        }),
{
    if config.generator.is_none() {
        return Err(LockdropError::GeneratorNotSet);
    }
    let received = match reward_token_balance.checked_sub(prev_reward_amount) {
        Some(v) => v,
        None => {
            return Err(LockdropError::Overflow);
        },
    };
    let ratio = match Dec::from_ratio(received, pool.amount_in_lockups) {
        Some(d) => d,
        None => {
            proof {
                assert(false);
            }
            return Err(LockdropError::Overflow);
        },
    };
    let mut pool = pool;
    pool.generator_ntrn_per_share = match pool.generator_ntrn_per_share.checked_add(ratio) {
        Some(d) => d,
        None => {
            return Err(LockdropError::Overflow);
        },
    };
    let ntrn_to_new_pool = current_ntrn_balance - prev_ntrn_balance;
    let token_denom = match find_second_leg(new_pool_assets) {
        Some(d) => d,
        None => {
            return Err(LockdropError::NoSecondLeg);
        },
    };
    Ok(PairStep2 { pool, ntrn_to_new_pool, token_denom })
}

/// The third step of moving a pool: the new pool's locked amount is the LP
/// balance the contract received, which is staked with the generator; the
/// users' positions are moved next. Returns the amount and the next stage.
pub fn migrate_pair_step_3(config: &Config, current_balance: u128) -> (r: Result<
    (u128, MigrationState),
    LockdropError,
>)
    ensures
        config.generator is None ==> r == Err::<(u128, MigrationState), LockdropError>(
            LockdropError::GeneratorNotSet,
        ),
        config.generator is Some ==> r == Ok::<(u128, MigrationState), LockdropError>(
            (current_balance, MigrationState::MigrateUsers(0)),
        ),
{
    if config.generator.is_none() {
        return Err(LockdropError::GeneratorNotSet);
    }
    Ok((current_balance, MigrationState::MigrateUsers(0)))
}

/// The factor by which positions grow when moved: the new pool's LP tokens
/// per old LP token locked.
pub fn migration_factor(new_amount: u128, old_amount: u128) -> (r: Dec256)
    requires
        old_amount != 0,
    ensures
        r.atomics.value() == (new_amount * decimal_fractional()) / (old_amount as int),
{
    proof {
        assert(new_amount * decimal_fractional() <= u128::MAX * decimal_fractional()) by (nonlinear_arith);
        assert(u128::MAX * decimal_fractional() < u256_modulus());
        vstd::arithmetic::div_mod::lemma_div_is_ordered(
            new_amount * decimal_fractional(),
            u128::MAX * decimal_fractional(),
            old_amount as int,
        );
        vstd::arithmetic::div_mod::lemma_div_basics(u128::MAX * decimal_fractional());
        vstd::arithmetic::div_mod::lemma_div_is_ordered_by_denominator(u128::MAX * decimal_fractional(), 1, old_amount as int);
    }
    match Dec256::from_ratio(U256::from_u128(new_amount), U256::from_u128(old_amount)) {
        Some(d) => d,
        None => {
            proof {
                assert(false);
            }
            Dec256 { atomics: U256::zero() }
        },
    }
}

} // verus!

verus! {

/// The page of users a migration step moves: only in the users stage; the
/// users after the `current_skip` already moved, at most `limit` of them
/// (the default where none is given). Returns the stage's page number, the
/// users to skip and the limit.
pub fn migrate_users_window(state: MigrationState, current_skip: Option<u32>, limit: Option<u32>) -> (r:
    Result<(u64, u32, u32), LockdropError>)
    ensures
        !(state is MigrateUsers) ==> r == Err::<(u64, u32, u32), LockdropError>(
            LockdropError::MigrationWrongState,
        ),
        state matches MigrationState::MigrateUsers(page) ==> r == Ok::<(u64, u32, u32), LockdropError>(
            (
                page,
                match current_skip {
                    Some(s) => s,
                    None => 0u32,
                },
                match limit {
                    Some(l) => l,
                    None => MIGRATION_USERS_DEFAULT_LIMIT,
                },
            ),
        ),
{
    let limit = match limit {
        Some(l) => l,
        None => MIGRATION_USERS_DEFAULT_LIMIT,
    };
    let skip = match current_skip {
        Some(s) => s,
        None => 0,
    };
    match state {
        MigrationState::MigrateUsers(page) => Ok((page, skip, limit)),
        _ => Err(LockdropError::MigrationWrongState),
    }
}

/// The stage after a migration step over a page of users: the migration
/// completes once a page is empty; else the next page follows, past the
/// users moved. Returns the stage and the new count of users to skip.
pub fn migrate_users_next(page: u64, skip: u32, limit: u32, page_empty: bool) -> (r: (
    MigrationState,
    Option<u32>,
))
    requires
        !page_empty ==> (skip + limit <= u32::MAX && page < u64::MAX),
    ensures
        page_empty ==> r == (MigrationState::Completed, None::<u32>),
        !page_empty ==> r == (MigrationState::MigrateUsers((page + 1) as u64), Some((skip + limit) as u32)),
{
    if page_empty {
        (MigrationState::Completed, None)
    } else {
        (MigrationState::MigrateUsers(page + 1), Some(skip + limit))
    }
}

/// The old pool once the migration completed: the new pool's LP token and
/// locked amount.
pub fn complete_pool_migration(pool: PoolInfo, new_lp_token: String, new_amount_in_lockups: u128) -> (r:
    PoolInfo)
    ensures
        r.lp_token == new_lp_token,
        r.amount_in_lockups == new_amount_in_lockups,
        r.weighted_amount == pool.weighted_amount,
        r.incentives_share == pool.incentives_share,
        r.generator_ntrn_per_share == pool.generator_ntrn_per_share,
        r.generator_proxy_per_share@ == pool.generator_proxy_per_share@,
        r.is_staked == pool.is_staked,
{
    let mut pool = pool;
    pool.lp_token = new_lp_token;
    pool.amount_in_lockups = new_amount_in_lockups;
    pool
}

/// The LP units of positions after the move, each scaled by the factor `kf`
/// (atomic units) and floored, and their running total; an overflow where a
/// scaled position leaves 128 bits; `None` where the total would.
pub open spec fn migrated_units(kf: nat, lps: Seq<u128>) -> Option<Result<(Seq<u128>, int), LockdropError>>
    decreases lps.len(),
{
    if lps.len() == 0 {
        Some(Ok((Seq::empty(), 0)))
    } else {
        match migrated_units(kf, lps.drop_last()) {
            None => None,
            Some(Err(e)) => Some(Err(e)),
            Some(Ok((units, total))) => {
                let scaled = (lps.last() * kf) / decimal_fractional();
                if scaled > u128::MAX {
                    Some(Err(LockdropError::Overflow))
                } else if total + scaled > u128::MAX {
                    None
                } else {
                    Some(Ok((units.push(scaled as u128), total + scaled)))
                }
            },
        }
    }
}

proof fn lemma_migrated_units_stop(kf: nat, lps: Seq<u128>, n: int)
    requires
        0 <= n <= lps.len(),
        !(migrated_units(kf, lps.take(n)) matches Some(Ok(_))),
    ensures
        migrated_units(kf, lps) == migrated_units(kf, lps.take(n)),
    decreases lps.len() - n,
{
    if n < lps.len() {
        assert(lps.take(n + 1).drop_last() =~= lps.take(n));
        lemma_migrated_units_stop(kf, lps, n + 1);
    } else {
        assert(lps.take(n) =~= lps);
    }
}

/// A recorded total that adding `add` to takes past 128 bits.
pub open spec fn total_overflows(total: Option<u128>, add: int) -> bool {
    match total {
        Some(la) => la + add > u128::MAX,
        None => false,
    }
}

proof fn lemma_migrated_units_len(kf: nat, lps: Seq<u128>)
    ensures
        migrated_units(kf, lps) matches Some(Ok((units, total))) ==> units.len() == lps.len(),
    decreases lps.len(),
{
    if lps.len() > 0 {
        lemma_migrated_units_len(kf, lps.drop_last());
    }
}

/// The LP units of each position.
pub open spec fn lockup_units(lockups: Seq<LockupInfo>) -> Seq<u128> {
    lockups.map_values(|l: LockupInfo| l.lp_units_locked)
}

/// The error, if any, that moving positions `lockups` with factor `kf`
/// reports, given the user's recorded total in the pool.
pub open spec fn lockups_move_error(kf: Dec256, lockups: Seq<LockupInfo>, total_user_lockup: Option<u128>) -> Option<
    LockdropError,
> {
    let m = migrated_units(kf.value(), lockup_units(lockups))->0;
    if m is Err {
        Some(m->Err_0)
    } else if total_overflows(total_user_lockup, m->Ok_0.1) {
        Some(LockdropError::Overflow)
    } else {
        None
    }
}

/// `moved` and `new_total` are what moving positions `lockups` with factor
/// `kf` gives: each position's LP units scaled, its proxy debts those of
/// `proxy_debts`, the rest kept; the user's total grown by the new units.
pub open spec fn lockups_moved(
    kf: Dec256,
    lockups: Seq<LockupInfo>,
    proxy_debts: Seq<Vec<(AssetInfo, u128)>>,
    total_user_lockup: Option<u128>,
    moved: Seq<LockupInfo>,
    new_total: u128,
) -> bool {
    let m = migrated_units(kf.value(), lockup_units(lockups))->0;
    &&& new_total == (match total_user_lockup {
        Some(la) => la + m->Ok_0.1,
        None => m->Ok_0.1,
    })
    &&& moved.len() == lockups.len()
    &&& forall|i: int|
        #![trigger moved[i]]
        0 <= i < lockups.len() ==> {
            &&& moved[i].lp_units_locked == m->Ok_0.0[i]
            &&& moved[i].generator_proxy_debt@ == proxy_debts[i]@
            &&& moved[i].astroport_lp_transferred == lockups[i].astroport_lp_transferred
            &&& moved[i].withdrawal_flag == lockups[i].withdrawal_flag
            &&& moved[i].ntrn_rewards == lockups[i].ntrn_rewards
            &&& moved[i].generator_ntrn_debt == lockups[i].generator_ntrn_debt
            &&& moved[i].unlock_timestamp == lockups[i].unlock_timestamp
        }
}

/// Moves a user's positions in a pool, in key order: each position's LP
/// units are scaled by the migration factor `kf`, and its proxy debts are
/// the ones `proxy_debts` gives for it. The user's total in the pool, if
/// recorded, grows by the positions' new total. Returns the positions and
/// the new total.
pub fn migrate_user_lockups(
    kf: Dec256,
    lockups: Vec<LockupInfo>,
    proxy_debts: Vec<Vec<(AssetInfo, u128)>>,
    total_user_lockup: Option<u128>,
) -> (r: Result<(Vec<LockupInfo>, u128), LockdropError>)
    requires
        proxy_debts@.len() == lockups@.len(),
        migrated_units(kf.value(), lockup_units(lockups@)) is Some,
    ensures
        lockups_move_error(kf, lockups@, total_user_lockup) matches Some(e) ==> r == Err::<
            (Vec<LockupInfo>, u128),
            LockdropError,
        >(e),
        lockups_move_error(kf, lockups@, total_user_lockup) is None ==> (r matches Ok((moved, total))
            && lockups_moved(kf, lockups@, proxy_debts@, total_user_lockup, moved@, total)),
{
    let ghost lps = lockup_units(lockups@);
    let ghost orig = lockups@;
    let ghost debts_in = proxy_debts@;
    let mut rest = lockups;
    let mut rest_debts = proxy_debts;
    let mut moved: Vec<LockupInfo> = Vec::new();
    let mut total: u128 = 0;
    let mut i: usize = 0;
    let n = rest.len();
    proof {
        assert(lps.take(0) =~= Seq::<u128>::empty());
    }
    while i < n
        invariant
            n == orig.len(),
            lps == lockup_units(orig),
            debts_in.len() == n,
            i <= n,
            orig == lockups@,
            rest@.len() == n - i,
            rest_debts@.len() == n - i,
            forall|j: int| 0 <= j < n - i ==> #[trigger] rest@[j] == orig[i + j],
            forall|j: int| 0 <= j < n - i ==> #[trigger] rest_debts@[j] == debts_in[i + j],
            migrated_units(kf.value(), lps) is Some,
            migrated_units(kf.value(), lps.take(i as int)) matches Some(Ok((units, t))) && t == total
                && moved@.len() == i && forall|j: int|
                #![trigger moved@[j]]
                0 <= j < i ==> {
                    &&& moved@[j].lp_units_locked == units[j]
                    &&& moved@[j].generator_proxy_debt@ == debts_in[j]@
                    &&& moved@[j].astroport_lp_transferred == orig[j].astroport_lp_transferred
                    &&& moved@[j].withdrawal_flag == orig[j].withdrawal_flag
                    &&& moved@[j].ntrn_rewards == orig[j].ntrn_rewards
                    &&& moved@[j].generator_ntrn_debt == orig[j].generator_ntrn_debt
                    &&& moved@[j].unlock_timestamp == orig[j].unlock_timestamp
                },
        decreases n - i,
    {
        proof {
            assert(lps.take(i + 1).drop_last() =~= lps.take(i as int));
            assert(lps.take(i + 1).last() == lps[i as int]);
            assert(rest@[0] == orig[i as int]);
            assert(rest_debts@[0] == debts_in[i as int]);
            assert(lps[i as int] == orig[i as int].lp_units_locked);
            lemma_migrated_units_len(kf.value(), lps.take(i as int));
            lemma_migrated_units_len(kf.value(), lps.take(i + 1));
            if !(migrated_units(kf.value(), lps.take(i + 1)) matches Some(Ok(_))) {
                lemma_migrated_units_stop(kf.value(), lps, i + 1);
            }
        }
        let mut lockup = rest.remove(0);
        let debts = rest_debts.remove(0);
        let scaled = match kf.checked_mul_uint256(U256::from_u128(lockup.lp_units_locked)) {
            Ok(v) => v,
            Err(_) => {
                return Err(LockdropError::Overflow);
            },
        };
        lockup.lp_units_locked = scaled;
        lockup.generator_proxy_debt = debts;
        total = total + scaled;
        moved.push(lockup);
        i = i + 1;
    }
    proof {
        assert(lps.take(n as int) =~= lps);
        lemma_migrated_units_len(kf.value(), lps);
    }
    let total = match total_user_lockup {
        Some(la) => match la.checked_add(total) {
            Some(v) => v,
            None => {
                return Err(LockdropError::Overflow);
            },
        },
        None => total,
    };
    Ok((moved, total))
}

/// One user's positions in one pool, as a migration step reads them: the
/// positions in key order, the proxy debts of each, and the user's recorded
/// total in the pool.
#[derive(Debug)]
pub struct UserPoolLockups {
    pub lockups: Vec<LockupInfo>,
    pub proxy_debts: Vec<Vec<(AssetInfo, u128)>>,
    pub total_user_lockup: Option<u128>,
}

/// The positions can be moved with factor `kf`: a proxy debt list for each,
/// and a running total of the scaled units that stays within 128 bits.
pub open spec fn pool_entry_fits(kf: Dec256, e: UserPoolLockups) -> bool {
    &&& e.proxy_debts@.len() == e.lockups@.len()
    &&& migrated_units(kf.value(), lockup_units(e.lockups@)) is Some
}

/// The first error that moving a user's positions pool by pool reports,
/// `kfs[j]` being the factor of the j-th pool.
pub open spec fn user_pools_error(kfs: Seq<Dec256>, pools: Seq<UserPoolLockups>) -> Option<LockdropError>
    decreases pools.len(),
{
    if pools.len() == 0 {
        None
    } else if lockups_move_error(kfs[0], pools[0].lockups@, pools[0].total_user_lockup) is Some {
        lockups_move_error(kfs[0], pools[0].lockups@, pools[0].total_user_lockup)
    } else {
        user_pools_error(kfs.drop_first(), pools.drop_first())
    }
}

proof fn lemma_user_pools_error_step(kfs: Seq<Dec256>, pools: Seq<UserPoolLockups>, j: int)
    requires
        0 <= j < pools.len(),
        kfs.len() == pools.len(),
    ensures
        user_pools_error(kfs.skip(j), pools.skip(j)) == (if lockups_move_error(
            kfs[j],
            pools[j].lockups@,
            pools[j].total_user_lockup,
        ) is Some {
            lockups_move_error(kfs[j], pools[j].lockups@, pools[j].total_user_lockup)
        } else {
            user_pools_error(kfs.skip(j + 1), pools.skip(j + 1))
        }),
{
    assert(kfs.skip(j).drop_first() =~= kfs.skip(j + 1));
    assert(pools.skip(j).drop_first() =~= pools.skip(j + 1));
}

/// Moves one user's positions in each pool, in pool order, `kfs[j]` being
/// the factor of the j-th pool; the first error stops the move. Returns, for
/// each pool, the moved positions and the user's new total.
pub fn migrate_user_pools(kfs: &Vec<Dec256>, pools: Vec<UserPoolLockups>) -> (r: Result<
    Vec<(Vec<LockupInfo>, u128)>,
    LockdropError,
>)
    requires
        pools@.len() == kfs@.len(),
        forall|j: int| 0 <= j < pools@.len() ==> #[trigger] pool_entry_fits(kfs@[j], pools@[j]),
    ensures
        user_pools_error(kfs@, pools@) matches Some(e) ==> r == Err::<Vec<(Vec<LockupInfo>, u128)>, LockdropError>(e),
        user_pools_error(kfs@, pools@) is None ==> (r matches Ok(out) && out@.len() == pools@.len() && forall|j: int|
            #![trigger out@[j]]
            0 <= j < pools@.len() ==> lockups_moved(
                kfs@[j],
                pools@[j].lockups@,
                pools@[j].proxy_debts@,
                pools@[j].total_user_lockup,
                out@[j].0@,
                out@[j].1,
            )),
{
    let ghost orig = pools@;
    let n = pools.len();
    let mut rest = pools;
    let mut out: Vec<(Vec<LockupInfo>, u128)> = Vec::new();
    let mut j: usize = 0;
    proof {
        assert(kfs@.skip(0) =~= kfs@);
        assert(orig.skip(0) =~= orig);
    }
    while j < n
        invariant
            orig == pools@,
            n == orig.len(),
            kfs@.len() == n,
            j <= n,
            rest@.len() == n - j,
            forall|k: int| 0 <= k < n - j ==> #[trigger] rest@[k] == orig[j + k],
            forall|k: int| 0 <= k < n ==> #[trigger] pool_entry_fits(kfs@[k], orig[k]),
            user_pools_error(kfs@, orig) == user_pools_error(kfs@.skip(j as int), orig.skip(j as int)),
            out@.len() == j,
            forall|k: int|
                #![trigger out@[k]]
                0 <= k < j ==> lockups_moved(
                    kfs@[k],
                    orig[k].lockups@,
                    orig[k].proxy_debts@,
                    orig[k].total_user_lockup,
                    out@[k].0@,
                    out@[k].1,
                ),
        decreases n - j,
    {
        proof {
            lemma_user_pools_error_step(kfs@, orig, j as int);
            assert(rest@[0] == orig[j as int]);
            assert(pool_entry_fits(kfs@[j as int], orig[j as int]));
        }
        let ghost before = rest@;
        let entry = rest.remove(0);
        proof {
            assert(entry == orig[j as int]);
        }
        let UserPoolLockups { lockups, proxy_debts, total_user_lockup } = entry;
        let kf = kfs[j];
        proof {
            assert(lockups@ == orig[j as int].lockups@);
            assert(proxy_debts@ == orig[j as int].proxy_debts@);
            assert(total_user_lockup == orig[j as int].total_user_lockup);
            assert(kf == kfs@[j as int]);
        }
        match migrate_user_lockups(kf, lockups, proxy_debts, total_user_lockup) {
            Ok(moved) => {
                out.push(moved);
            },
            Err(e) => {
                proof {
                    let me = lockups_move_error(kfs@[j as int], orig[j as int].lockups@, orig[j as int].total_user_lockup);
                    assert(me is Some);
                    assert(me == Some(e));
                    assert(user_pools_error(kfs@.skip(j as int), orig.skip(j as int)) == Some(e));
                    assert(user_pools_error(kfs@, orig) == Some(e));
                }
                return Err(e);
            },
        }
        proof {
            assert forall|k: int| 0 <= k < n - (j + 1) implies #[trigger] rest@[k] == orig[j + 1 + k] by {
                assert(rest@[k] == before[k + 1]);
            }
        }
        j = j + 1;
    }
    proof {
        assert(orig.skip(n as int) =~= Seq::<UserPoolLockups>::empty());
    }
    Ok(out)
}

/// The first error that a migration step over a page of users reports.
pub open spec fn page_error(kfs: Seq<Dec256>, page: Seq<Vec<UserPoolLockups>>) -> Option<LockdropError>
    decreases page.len(),
{
    if page.len() == 0 {
        None
    } else if user_pools_error(kfs, page[0]@) is Some {
        user_pools_error(kfs, page[0]@)
    } else {
        page_error(kfs, page.drop_first())
    }
}

/// A migration step over a page of users: each user's positions are moved
/// pool by pool, `kfs[j]` being the factor of the j-th pool; the first error
/// stops the step. Returns, for each user and each pool, the moved positions
/// and the user's new total in the pool.
pub fn migrate_users_page(kfs: &Vec<Dec256>, page: Vec<Vec<UserPoolLockups>>) -> (r: Result<
    Vec<Vec<(Vec<LockupInfo>, u128)>>,
    LockdropError,
>)
    requires
        forall|i: int| 0 <= i < page@.len() ==> (#[trigger] page@[i])@.len() == kfs@.len(),
        forall|i: int, j: int|
            0 <= i < page@.len() && 0 <= j < kfs@.len() ==> pool_entry_fits(kfs@[j], #[trigger] page@[i]@[j]),
    ensures
        page_error(kfs@, page@) matches Some(e) ==> r == Err::<Vec<Vec<(Vec<LockupInfo>, u128)>>, LockdropError>(e),
        page_error(kfs@, page@) is None ==> (r matches Ok(out) && out@.len() == page@.len() && (forall|i: int|
            0 <= i < page@.len() ==> (#[trigger] out@[i])@.len() == kfs@.len()) && forall|i: int, j: int|
            #![trigger out@[i]@[j]]
            0 <= i < page@.len() && 0 <= j < kfs@.len() ==> lockups_moved(
                kfs@[j],
                page@[i]@[j].lockups@,
                page@[i]@[j].proxy_debts@,
                page@[i]@[j].total_user_lockup,
                out@[i]@[j].0@,
                out@[i]@[j].1,
            )),
{
    let ghost orig = page@;
    let n = page.len();
    let mut rest = page;
    let mut out: Vec<Vec<(Vec<LockupInfo>, u128)>> = Vec::new();
    let mut i: usize = 0;
    proof {
        assert(orig.skip(0) =~= orig);
    }
    while i < n
        invariant
            orig == page@,
            n == orig.len(),
            i <= n,
            rest@.len() == n - i,
            forall|k: int| 0 <= k < n - i ==> #[trigger] rest@[k] == orig[i + k],
            forall|k: int| 0 <= k < n ==> (#[trigger] orig[k])@.len() == kfs@.len(),
            forall|k: int, j: int|
                0 <= k < n && 0 <= j < kfs@.len() ==> pool_entry_fits(kfs@[j], #[trigger] orig[k]@[j]),
            page_error(kfs@, orig) == page_error(kfs@, orig.skip(i as int)),
            out@.len() == i,
            forall|k: int| 0 <= k < i ==> (#[trigger] out@[k])@.len() == kfs@.len(),
            forall|k: int, j: int|
                #![trigger out@[k]@[j]]
                0 <= k < i && 0 <= j < kfs@.len() ==> lockups_moved(
                    kfs@[j],
                    orig[k]@[j].lockups@,
                    orig[k]@[j].proxy_debts@,
                    orig[k]@[j].total_user_lockup,
                    out@[k]@[j].0@,
                    out@[k]@[j].1,
                ),
        decreases n - i,
    {
        proof {
            assert(orig.skip(i as int).drop_first() =~= orig.skip(i + 1));
            assert(orig.skip(i as int)[0] == orig[i as int]);
            assert(rest@[0] == orig[i as int]);
            assert forall|j: int| 0 <= j < orig[i as int]@.len() implies #[trigger] pool_entry_fits(
                kfs@[j],
                orig[i as int]@[j],
            ) by {
                assert(pool_entry_fits(kfs@[j], orig[i as int]@[j]));
            }
        }
        let ghost before = rest@;
        let user = rest.remove(0);
        proof {
            assert(user == orig[i as int]);
        }
        match migrate_user_pools(kfs, user) {
            Ok(moved) => {
                let ghost mv = moved@;
                let ghost prev_out = out@;
                proof {
                    assert(user_pools_error(kfs@, orig[i as int]@) is None);
                }
                out.push(moved);
                proof {
                    assert(out@[i as int]@ == mv);
                    assert forall|k: int| 0 <= k < i implies #[trigger] out@[k] == prev_out[k] by {}
                    assert(mv.len() == kfs@.len());
                    assert forall|j: int| 0 <= j < kfs@.len() implies lockups_moved(
                        kfs@[j],
                        orig[i as int]@[j].lockups@,
                        orig[i as int]@[j].proxy_debts@,
                        orig[i as int]@[j].total_user_lockup,
                        out@[i as int]@[j].0@,
                        out@[i as int]@[j].1,
                    ) by {
                        assert(mv[j] == out@[i as int]@[j]);
                    }
                    assert forall|k: int| 0 <= k < i + 1 implies (#[trigger] out@[k])@.len() == kfs@.len() by {
                        if k < i {
                            assert(out@[k] == prev_out[k]);
                        }
                    }
                    assert forall|k: int, j: int|
                        #![trigger out@[k]@[j]]
                        0 <= k < i + 1 && 0 <= j < kfs@.len() implies lockups_moved(
                        kfs@[j],
                        orig[k]@[j].lockups@,
                        orig[k]@[j].proxy_debts@,
                        orig[k]@[j].total_user_lockup,
                        out@[k]@[j].0@,
                        out@[k]@[j].1,
                    ) by {
                        if k < i {
                            assert(out@[k] == prev_out[k]);
                            assert(prev_out[k]@[j] == out@[k]@[j]);
                        }
                    }
                }
            },
            Err(e) => {
                return Err(e);
            },
        }
        proof {
            assert forall|k: int| 0 <= k < n - (i + 1) implies #[trigger] rest@[k] == orig[i + 1 + k] by {
                assert(rest@[k] == before[k + 1]);
            }
        }
        i = i + 1;
    }
    proof {
        assert(orig.skip(n as int) =~= Seq::<Vec<UserPoolLockups>>::empty());
    }
    Ok(out)
}

} // verus!
