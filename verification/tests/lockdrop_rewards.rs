use neutron_tge::lockdrop::lockup::{instantiate, new_pool};
use neutron_tge::lockdrop::migration::{
    check_callback_sender, check_execute_allowed, complete_pool_migration, find_second_leg,
    migrate_liquidity, migrate_pair_step_1, migrate_pair_step_2, migrate_pair_step_3,
    migrate_user_lockups, migrate_users_next, migrate_users_page, migrate_users_window, migration_factor,
    UserPoolLockups,
    MIGRATION_USERS_DEFAULT_LIMIT,
};
use neutron_tge::lockdrop::queries::{
    query_lockup_total_at_height, query_user_info, query_user_info_with_lockups_list,
};
use neutron_tge::lockdrop::rewards::{
    callback_withdraw_user_rewards_for_lockup_optional_withdraw, claim_airdrop_amount,
    handle_claim_rewards_and_unlock_for_lockup, has_pending_rewards, lockup_lp_share,
    lockup_position_reward, query_lockup_info, update_per_share, update_pool_on_dual_rewards_claim,
    update_user_lockup_positions_and_calc_rewards, claim_actions, ClaimAction, ClaimPlan, RewardAction,
};
use neutron_tge::lockdrop::types::{
    Config, InstantiateMsg, LockUpInfoSummary, LockdropError, LockupInfo, LockupRewardsInfo,
    MigrationState, PoolInfo, PoolType, State, UserInfo,
};
use neutron_tge::numeric::{Dec, Dec256, U256};
use neutron_tge::vesting::types::AssetInfo;

const NOW: u64 = 1_571_797_419;
const ONE: u128 = 1_000_000_000_000_000_000;

fn config_with_generator() -> Config {
    let msg = InstantiateMsg {
        owner: Some("owner".to_string()),
        token_info_manager: "tim".to_string(),
        credits_contract: "credits".to_string(),
        auction_contract: "auction".to_string(),
        init_timestamp: NOW,
        lock_window: 100,
        withdrawal_window: 50,
        min_lock_duration: 1,
        max_lock_duration: 52,
        max_positions_per_user: 14,
        lockup_rewards_info: vec![
            LockupRewardsInfo { duration: 1, coefficient: Dec256::from_atomics_u128(0) },
            LockupRewardsInfo { duration: 2, coefficient: Dec256::from_atomics_u128(ONE) },
        ],
    };
    let (mut c, _) = instantiate(NOW, "creator".to_string(), msg).unwrap();
    c.generator = Some("generator".to_string());
    c.lockdrop_incentives = 1_000_000;
    c
}

fn pool(amount: u128, weighted: u128, share: u128, staked: bool) -> PoolInfo {
    let mut p = new_pool("lp".to_string());
    p.amount_in_lockups = amount;
    p.weighted_amount = U256::from_u128(weighted);
    p.incentives_share = share;
    p.is_staked = staked;
    p
}

fn position(lp: u128, rewards: u128) -> LockupInfo {
    LockupInfo {
        lp_units_locked: lp,
        astroport_lp_transferred: None,
        withdrawal_flag: false,
        ntrn_rewards: rewards,
        generator_ntrn_debt: 0,
        generator_proxy_debt: vec![],
        unlock_timestamp: NOW + 200,
    }
}

#[test]
fn lp_share_of_a_position() {
    assert_eq!(lockup_lp_share(25, 400, 100), Ok(100));
    assert_eq!(lockup_lp_share(1, 10, 3), Ok(3));
    assert_eq!(lockup_lp_share(1, 10, 0), Err(LockdropError::DivideByZero));
    assert_eq!(lockup_lp_share(u128::MAX, u128::MAX, 1), Err(LockdropError::Overflow));
}

#[test]
fn position_rewards_by_weight() {
    let c = config_with_generator();
    let state = State { total_incentives_share: 2 };
    let p = pool(100, 150, 1, true);
    assert_eq!(lockup_position_reward(&c, &state, &p, &position(50, 0), 1), Ok(166_666));
    assert_eq!(lockup_position_reward(&c, &state, &p, &position(50, 7), 1), Ok(7));
    assert_eq!(
        lockup_position_reward(&c, &state, &p, &position(50, 0), 9),
        Err(LockdropError::InvalidDuration)
    );
    let positions = vec![(p.clone(), position(50, 0), 1), (p.clone(), position(25, 0), 2)];
    let (total, each) = update_user_lockup_positions_and_calc_rewards(&c, &state, &positions).unwrap();
    assert_eq!(each, vec![166_666, 166_666]);
    assert_eq!(total, 333_332);
}

#[test]
fn claim_plan_checks() {
    let c = config_with_generator();
    let state = State { total_incentives_share: 2 };
    let p = pool(100, 150, 1, true);
    let positions = vec![(p.clone(), position(50, 0), 1)];
    let end = NOW + 150;
    assert_eq!(
        handle_claim_rewards_and_unlock_for_lockup(&c, &state, end - 1, UserInfo::new(), &positions, Some(position(50, 0)), true, false)
            .unwrap_err(),
        LockdropError::WindowStillOpen
    );
    let plan = handle_claim_rewards_and_unlock_for_lockup(
        &c,
        &state,
        end,
        UserInfo::new(),
        &positions,
        Some(position(50, 0)),
        true,
        false,
    )
    .unwrap();
    assert_eq!(plan.user.total_ntrn_rewards, 166_666);
    assert_eq!(plan.position_rewards, Some(vec![166_666]));
    assert!(plan.check_generator);
    assert_eq!(
        handle_claim_rewards_and_unlock_for_lockup(&c, &state, end, UserInfo::new(), &positions, Some(position(50, 0)), true, true)
            .unwrap_err(),
        LockdropError::SecondsToUnlock(50)
    );
    assert_eq!(
        handle_claim_rewards_and_unlock_for_lockup(&c, &state, end, UserInfo::new(), &positions, None, true, false)
            .unwrap_err(),
        LockdropError::NotFound
    );
    let paid = UserInfo { total_ntrn_rewards: 5, ntrn_transferred: true, lockup_positions_index: 1 };
    assert_eq!(
        handle_claim_rewards_and_unlock_for_lockup(&c, &state, end, paid, &positions, Some(position(50, 0)), false, false)
            .unwrap_err(),
        LockdropError::NoRewardsToClaim
    );
    assert!(has_pending_rewards(0, &vec![0, 3]));
    assert!(!has_pending_rewards(0, &vec![0, 0]));
    assert!(has_pending_rewards(1, &vec![]));
}

#[test]
fn payout_of_a_staked_position() {
    let c = config_with_generator();
    let proxy = AssetInfo::NativeToken { denom: "uproxy".to_string() };
    let mut p = pool(100, 100, 1, true);
    p.generator_ntrn_per_share = Dec { atomics: 2 * ONE };
    p.generator_proxy_per_share = vec![(proxy.clone(), Dec { atomics: ONE / 2 })];
    let mut li = position(50, 0);
    li.generator_ntrn_debt = 100;
    li.generator_proxy_debt = vec![(proxy.clone(), 10)];
    let user = UserInfo { total_ntrn_rewards: 40, ntrn_transferred: false, lockup_positions_index: 1 };
    let out = callback_withdraw_user_rewards_for_lockup_optional_withdraw(
        &c,
        p.clone(),
        li.clone(),
        user,
        Some(80),
        200,
        true,
        5,
    )
    .unwrap();
    // the position holds 50 / 100 of the 200 LP tokens
    assert_eq!(
        out.actions,
        vec![
            RewardAction::SendBaseReward(100),
            RewardAction::SendProxyReward(proxy.clone(), 40),
            RewardAction::UnstakeLp(100),
            RewardAction::TransferLp(100),
            RewardAction::SendNtrn(40),
            RewardAction::ClaimAirdrop(40),
        ]
    );
    assert_eq!(out.lockup.generator_ntrn_debt, 200);
    assert_eq!(out.lockup.generator_proxy_debt, vec![(proxy, 50)]);
    assert_eq!(out.lockup.astroport_lp_transferred, Some(100));
    assert_eq!(out.pool.amount_in_lockups, 50);
    assert_eq!(out.total_user_lockup, Some(30));
    assert!(out.user.ntrn_transferred);

    let mut unstaked = p.clone();
    unstaked.is_staked = false;
    let done = UserInfo { ntrn_transferred: true, ..user };
    let out = callback_withdraw_user_rewards_for_lockup_optional_withdraw(&c, unstaked, li.clone(), done, None, 200, false, 0)
        .unwrap();
    assert!(out.actions.is_empty());
    assert_eq!(out.total_user_lockup, None);

    let mut settled = li.clone();
    settled.generator_ntrn_debt = 200;
    settled.generator_proxy_debt = vec![];
    assert_eq!(
        callback_withdraw_user_rewards_for_lockup_optional_withdraw(&c, p.clone(), settled, done, None, 200, false, 0)
            .unwrap_err(),
        LockdropError::NoRewardsToClaim
    );
    let mut no_generator = c.clone();
    no_generator.generator = None;
    assert_eq!(
        callback_withdraw_user_rewards_for_lockup_optional_withdraw(&no_generator, p, li, user, None, 200, false, 0)
            .unwrap_err(),
        LockdropError::GeneratorNotSet
    );
}

#[test]
fn airdrop_claim_amount() {
    assert_eq!(claim_airdrop_amount(100, 7, 40), Ok(47));
    assert_eq!(claim_airdrop_amount(30, 7, 40), Ok(37));
    assert_eq!(claim_airdrop_amount(30, u128::MAX, 40), Err(LockdropError::Overflow));
}

#[test]
fn dual_rewards_spread_over_lp_tokens() {
    let c = config_with_generator();
    let proxy = AssetInfo::NativeToken { denom: "uproxy".to_string() };
    let other = AssetInfo::Token { contract_addr: "token".to_string() };
    let mut p = pool(100, 100, 1, true);
    p.generator_proxy_per_share = vec![(proxy.clone(), Dec { atomics: ONE })];
    let proxies = vec![(proxy.clone(), 10, 30), (other.clone(), 0, 5)];
    let (updated, received) = update_pool_on_dual_rewards_claim(&c, p.clone(), 10, 120, 100, &proxies).unwrap();
    assert_eq!(received, 20);
    assert_eq!(updated.generator_ntrn_per_share.atomics, 2 * ONE);
    assert_eq!(
        updated.generator_proxy_per_share,
        vec![(proxy.clone(), Dec { atomics: 3 * ONE }), (other, Dec { atomics: ONE / 2 })]
    );
    assert_eq!(
        update_pool_on_dual_rewards_claim(&c, p.clone(), 10, 90, 100, &proxies).unwrap_err(),
        LockdropError::Overflow
    );
    let mut v = vec![(proxy.clone(), Dec { atomics: 1 })];
    assert_eq!(update_per_share(&mut v, &proxy, Dec { atomics: 2 }).atomics, 3);
    assert_eq!(v, vec![(proxy, Dec { atomics: 3 })]);
}

#[test]
fn lockup_info_for_a_staked_pool() {
    let c = config_with_generator();
    let state = State { total_incentives_share: 2 };
    let proxy = AssetInfo::NativeToken { denom: "uproxy".to_string() };
    let mut p = pool(100, 150, 1, true);
    p.generator_ntrn_per_share = Dec { atomics: ONE };
    let mut li = position(50, 0);
    li.generator_ntrn_debt = 40;
    li.generator_proxy_debt = vec![(proxy.clone(), 5)];
    let info = query_lockup_info(&c, &state, PoolType::ATOM, &p, li, 1, 200, Some((100, vec![(proxy.clone(), 40)])))
        .unwrap();
    // 100 LP tokens, 1.5 base rewards per token, 0.2 proxy rewards per token
    assert_eq!(info.astroport_lp_units, Some(100));
    assert_eq!(info.claimable_generator_astro_debt, 110);
    assert_eq!(info.claimable_generator_proxy_debt, vec![(proxy, 15)]);
    assert_eq!(info.ntrn_rewards, 166_666);
    assert_eq!(info.pool_type, PoolType::ATOM);

    let mut transferred = position(50, 9);
    transferred.astroport_lp_transferred = Some(77);
    let info = query_lockup_info(&c, &state, PoolType::USDC, &p, transferred, 1, 0, None).unwrap();
    assert_eq!(info.astroport_lp_units, Some(77));
    assert_eq!(info.ntrn_rewards, 9);
    assert_eq!(info.claimable_generator_astro_debt, 0);

    let user = UserInfo { total_ntrn_rewards: 0, ntrn_transferred: false, lockup_positions_index: 2 };
    let resp = query_user_info(user, vec![info.clone(), info]).unwrap();
    assert_eq!(resp.total_ntrn_rewards, 18);
    assert_eq!(resp.lockup_positions_index, 2);
    let keys = vec![LockUpInfoSummary { pool_type: PoolType::ATOM, duration: 1 }];
    let list = query_user_info_with_lockups_list(user, keys.clone());
    assert_eq!(list.lockup_infos, keys);
    assert_eq!(query_lockup_total_at_height(None), Some(0));
    assert_eq!(query_lockup_total_at_height(Some(5)), Some(5));
}

#[test]
fn migration_stages() {
    assert_eq!(check_execute_allowed(MigrationState::MigrateLiquidity, false), Err(LockdropError::MigrationInProgress));
    assert_eq!(check_execute_allowed(MigrationState::MigrateUsers(3), true), Ok(()));
    assert_eq!(check_callback_sender(&"a".to_string(), &"b".to_string()), Err(LockdropError::ExternalCallback));
    let max = Dec { atomics: ONE / 10 };
    assert_eq!(migrate_liquidity(MigrationState::Completed, None, max).unwrap_err(), LockdropError::MigrationWrongState);
    assert_eq!(
        migrate_liquidity(MigrationState::MigrateLiquidity, Some(Dec { atomics: ONE }), max).unwrap_err(),
        LockdropError::SlippageTooHigh
    );
    assert_eq!(
        migrate_liquidity(MigrationState::MigrateLiquidity, None, max).unwrap(),
        vec![PoolType::ATOM, PoolType::USDC]
    );
    let c = config_with_generator();
    let p = pool(100, 100, 1, true);
    assert_eq!(migrate_pair_step_1(&c, &p), Ok(100));
    let assets = vec![
        AssetInfo::NativeToken { denom: "untrn".to_string() },
        AssetInfo::NativeToken { denom: "uatom".to_string() },
    ];
    assert_eq!(find_second_leg(&assets), Some("uatom".to_string()));
    let step2 = migrate_pair_step_2(&c, p.clone(), 10, 60, 5, 25, &assets).unwrap();
    assert_eq!(step2.ntrn_to_new_pool, 50);
    assert_eq!(step2.token_denom, "uatom");
    assert_eq!(step2.pool.generator_ntrn_per_share.atomics, ONE / 5);
    assert_eq!(
        migrate_pair_step_2(&c, p, 10, 60, 5, 25, &vec![]).unwrap_err(),
        LockdropError::NoSecondLeg
    );
    assert_eq!(migrate_pair_step_3(&c, 40), Ok((40, MigrationState::MigrateUsers(0))));
}

#[test]
fn migrating_users() {
    assert_eq!(
        migrate_users_window(MigrationState::MigrateUsers(2), None, None),
        Ok((2, 0, MIGRATION_USERS_DEFAULT_LIMIT))
    );
    assert_eq!(
        migrate_users_window(MigrationState::Completed, Some(4), Some(3)),
        Err(LockdropError::MigrationWrongState)
    );
    assert_eq!(migrate_users_next(2, 4, 3, false), (MigrationState::MigrateUsers(3), Some(7)));
    assert_eq!(migrate_users_next(2, 4, 3, true), (MigrationState::Completed, None));

    let kf = migration_factor(150, 100);
    let proxy = AssetInfo::NativeToken { denom: "uproxy".to_string() };
    let (moved, total) = migrate_user_lockups(
        kf,
        vec![position(10, 0), position(3, 0)],
        vec![vec![(proxy.clone(), 2)], vec![]],
        Some(5),
    )
    .unwrap();
    assert_eq!(moved[0].lp_units_locked, 15);
    assert_eq!(moved[1].lp_units_locked, 4);
    assert_eq!(moved[0].generator_proxy_debt, vec![(proxy, 2)]);
    assert_eq!(total, 24);

    let done = complete_pool_migration(pool(100, 7, 1, true), "new_lp".to_string(), 150);
    assert_eq!(done.lp_token, "new_lp");
    assert_eq!(done.amount_in_lockups, 150);
}

#[test]
fn migrating_a_page_of_users() {
    let kfs = vec![migration_factor(150, 100), migration_factor(200, 100)];
    let entry = |lps: Vec<u128>, total: Option<u128>| UserPoolLockups {
        proxy_debts: lps.iter().map(|_| vec![]).collect(),
        lockups: lps.into_iter().map(|lp| position(lp, 0)).collect(),
        total_user_lockup: total,
    };
    let page = vec![
        vec![entry(vec![10, 3], Some(5)), entry(vec![7], None)],
        vec![entry(vec![], None), entry(vec![1], Some(1))],
    ];
    let out = migrate_users_page(&kfs, page).unwrap();
    assert_eq!(out.len(), 2);
    assert_eq!(out[0][0].0.iter().map(|l| l.lp_units_locked).collect::<Vec<_>>(), vec![15, 4]);
    assert_eq!(out[0][0].1, 24);
    assert_eq!(out[0][1].0[0].lp_units_locked, 14);
    assert_eq!(out[0][1].1, 14);
    assert!(out[1][0].0.is_empty());
    assert_eq!(out[1][1].1, 3);

    let overflowing = vec![vec![entry(vec![1], Some(1)), entry(vec![1], Some(u128::MAX))]];
    assert_eq!(migrate_users_page(&kfs, overflowing).unwrap_err(), LockdropError::Overflow);
}

#[test]
fn claim_messages_in_order() {
    let user = UserInfo { total_ntrn_rewards: 5, ntrn_transferred: false, lockup_positions_index: 1 };
    let staked = ClaimPlan { user, position_rewards: None, check_generator: true };
    let payout = ClaimAction::WithdrawUserLockupRewards {
        pool_type: PoolType::ATOM,
        user_address: "user".to_string(),
        duration: 5,
        withdraw_lp_stake: true,
    };
    assert_eq!(
        claim_actions(&staked, true, PoolType::ATOM, "user".to_string(), 5, true),
        vec![
            ClaimAction::ClaimGeneratorRewards(PoolType::ATOM),
            ClaimAction::UpdatePoolOnDualRewardsClaim(PoolType::ATOM),
            payout.clone(),
        ]
    );
    assert_eq!(claim_actions(&staked, false, PoolType::ATOM, "user".to_string(), 5, true), vec![payout.clone()]);
    let unstaked = ClaimPlan { user, position_rewards: None, check_generator: false };
    assert_eq!(claim_actions(&unstaked, true, PoolType::ATOM, "user".to_string(), 5, true), vec![payout]);
}

#[test]
fn one_time_reward_paid_once() {
    let c = config_with_generator();
    let mut p = pool(100, 100, 1, true);
    p.generator_ntrn_per_share = Dec { atomics: 2 * ONE };
    let mut li = position(50, 0);
    li.generator_ntrn_debt = 100;
    let user = UserInfo { total_ntrn_rewards: 40, ntrn_transferred: false, lockup_positions_index: 1 };
    let first =
        callback_withdraw_user_rewards_for_lockup_optional_withdraw(&c, p.clone(), li, user, None, 200, false, 0)
            .unwrap();
    assert_eq!(first.actions.iter().filter(|a| **a == RewardAction::SendNtrn(40)).count(), 1);
    assert!(first.user.ntrn_transferred);
    p.generator_ntrn_per_share = Dec { atomics: 3 * ONE };
    let second =
        callback_withdraw_user_rewards_for_lockup_optional_withdraw(&c, p, first.lockup, first.user, None, 200, false, 0)
            .unwrap();
    assert!(second.actions.iter().all(|a| !matches!(a, RewardAction::SendNtrn(_))));
    assert_eq!(second.actions, vec![RewardAction::SendBaseReward(100)]);
}
