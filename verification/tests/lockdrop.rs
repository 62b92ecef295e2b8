use neutron_tge::lockdrop::lockup::{
    check_tokens_sent, handle_increase_lockup, handle_increasing_ntrn_incentives,
    handle_initialize_pool, handle_set_token_info, handle_update_config,
    handle_withdraw_from_lockup, instantiate, new_pool, upgrade_lockup_info,
};
use neutron_tge::lockdrop::math::{
    calculate_astro_incentives_for_lockup, calculate_max_withdrawal_percent_allowed,
    calculate_weight,
};
use neutron_tge::lockdrop::migration::check_execute_allowed;
use neutron_tge::lockdrop::types::{
    pool_types, Coin, Config, InstantiateMsg, LockdropError, LockupInfo, LockupInfoV1,
    LockupRewardsInfo, MigrationState, PoolInfo, PoolType, State, UserInfo,
};
use neutron_tge::numeric::{Dec256, U256};
use neutron_tge::ownership::{
    claim_ownership, drop_ownership_proposal, propose_new_owner, OwnershipError, MAX_PROPOSAL_TTL,
};
use neutron_tge::vesting::types::AssetInfo;

const MOCK_TIME: u64 = 1_571_797_419;
const ONE: u128 = 1_000_000_000_000_000_000;

fn rewards_info(duration: u64, coefficient_atomics: u128) -> LockupRewardsInfo {
    LockupRewardsInfo { duration, coefficient: Dec256::from_atomics_u128(coefficient_atomics) }
}

fn instantiate_msg(infos: Vec<LockupRewardsInfo>) -> InstantiateMsg {
    InstantiateMsg {
        owner: Some("owner".to_string()),
        token_info_manager: "token_info_manager".to_string(),
        credits_contract: "credit_contract".to_string(),
        auction_contract: "auction_contract".to_string(),
        init_timestamp: MOCK_TIME,
        lock_window: 10_000_000,
        withdrawal_window: 500_000,
        min_lock_duration: 1,
        max_lock_duration: 52,
        max_positions_per_user: 14,
        lockup_rewards_info: infos,
    }
}

fn config() -> Config {
    let (c, _) = instantiate(
        MOCK_TIME,
        "addr0000".to_string(),
        instantiate_msg(vec![rewards_info(1, 0), rewards_info(2, ONE / 2)]),
    )
    .unwrap();
    c
}

fn pool(amount: u128, weighted: u128) -> PoolInfo {
    let mut p = new_pool("lp_token".to_string());
    p.amount_in_lockups = amount;
    p.weighted_amount = U256::from_u128(weighted);
    p
}

fn weighted(p: &PoolInfo) -> u128 {
    p.weighted_amount.to_u128().unwrap()
}

#[test]
fn increase_ntrn_incentives() {
    assert!(check_execute_allowed(MigrationState::Completed, false).is_ok());
    let (config, state) = instantiate(
        MOCK_TIME,
        "addr0000".to_string(),
        instantiate_msg(vec![rewards_info(1, 0)]),
    )
    .unwrap();
    assert_eq!(state.total_incentives_share, 0);
    assert_eq!(config.owner, "owner");

    let funds = vec![Coin { denom: "untrn".to_string(), amount: 100 }];
    let res = handle_increasing_ntrn_incentives(config.clone(), MOCK_TIME, &funds);
    assert!(res.is_ok());
    let (config, added) = res.unwrap();
    assert_eq!(added, 100);
    assert_eq!(100u128, config.lockdrop_incentives);

    let funds = vec![Coin { denom: "DENOM".to_string(), amount: 100 }];
    let err = handle_increasing_ntrn_incentives(config, MOCK_TIME, &funds).unwrap_err();
    assert_eq!(err, LockdropError::IncentiveNotFound);
}

#[test]
fn incentives_rejected_after_withdrawal_window() {
    let c = config();
    let funds = vec![Coin { denom: "untrn".to_string(), amount: 5 }];
    let end = c.init_timestamp + c.lock_window + c.withdrawal_window;
    assert_eq!(
        handle_increasing_ntrn_incentives(c, end, &funds).unwrap_err(),
        LockdropError::LockWindowClosed
    );
}

#[test]
fn instantiate_errors() {
    let msg = instantiate_msg(vec![rewards_info(1, 0)]);
    assert_eq!(
        instantiate(MOCK_TIME + 1, "a".to_string(), msg).unwrap_err(),
        LockdropError::InvalidInitTimestamp(MOCK_TIME + 1)
    );
    let mut msg = instantiate_msg(vec![rewards_info(1, 0)]);
    msg.min_lock_duration = 0;
    assert_eq!(instantiate(MOCK_TIME, "a".to_string(), msg).unwrap_err(), LockdropError::InvalidLockupDurations);
    let mut msg = instantiate_msg(vec![rewards_info(1, 0)]);
    msg.max_lock_duration = 0;
    assert_eq!(instantiate(MOCK_TIME, "a".to_string(), msg).unwrap_err(), LockdropError::InvalidLockupDurations);
    let msg = instantiate_msg(vec![]);
    assert_eq!(instantiate(MOCK_TIME, "a".to_string(), msg).unwrap_err(), LockdropError::InvalidLockupRewardsInfo);
    let msg = instantiate_msg(vec![rewards_info(1, 0), rewards_info(0, 0)]);
    assert_eq!(instantiate(MOCK_TIME, "a".to_string(), msg).unwrap_err(), LockdropError::InvalidRewardsDuration);
    let mut msg = instantiate_msg(vec![rewards_info(1, 0)]);
    msg.max_positions_per_user = 0;
    assert_eq!(instantiate(MOCK_TIME, "a".to_string(), msg).unwrap_err(), LockdropError::InvalidMaxPositions);
    let mut msg = instantiate_msg(vec![rewards_info(1, 0)]);
    msg.owner = None;
    let (c, _) = instantiate(MOCK_TIME, "creator".to_string(), msg).unwrap();
    assert_eq!(c.owner, "creator");
    assert_eq!(c.lockdrop_incentives, 0);
    assert!(c.generator.is_none());
}

#[test]
fn weight_uses_duration_coefficient() {
    let c = config();
    assert_eq!(calculate_weight(100, 1, &c).unwrap().to_u128(), Some(100));
    assert_eq!(calculate_weight(100, 2, &c).unwrap().to_u128(), Some(150));
    assert_eq!(calculate_weight(3, 2, &c).unwrap().to_u128(), Some(4));
    assert_eq!(calculate_weight(100, 3, &c).unwrap_err(), LockdropError::InvalidDuration);
}

#[test]
fn incentives_for_lockup() {
    let r = calculate_astro_incentives_for_lockup(
        U256::from_u128(50),
        U256::from_u128(200),
        1,
        2,
        1_000_000,
    );
    assert_eq!(r, Ok(125_000));
    let zero = calculate_astro_incentives_for_lockup(U256::from_u128(50), U256::from_u128(0), 1, 2, 1_000);
    assert_eq!(zero, Ok(0));
    let none = calculate_astro_incentives_for_lockup(U256::from_u128(50), U256::from_u128(10), 1, 0, 1_000);
    assert_eq!(none, Ok(0));
}

#[test]
fn max_withdrawal_percent_over_time() {
    let c = config();
    let start = c.init_timestamp + c.lock_window;
    assert_eq!(calculate_max_withdrawal_percent_allowed(MOCK_TIME, &c).atomics, ONE);
    assert_eq!(calculate_max_withdrawal_percent_allowed(start, &c).atomics, ONE / 2);
    assert_eq!(calculate_max_withdrawal_percent_allowed(start + 250_000, &c).atomics, ONE / 2);
    assert_eq!(calculate_max_withdrawal_percent_allowed(start + 375_000, &c).atomics, ONE / 4);
    assert_eq!(calculate_max_withdrawal_percent_allowed(start + 500_000, &c).atomics, 0);
}

#[test]
fn increase_lockup_opens_and_grows_positions() {
    let c = config();
    let sender = "auction_contract".to_string();
    let (p, li, u, total) =
        handle_increase_lockup(&c, MOCK_TIME, &sender, pool(0, 0), UserInfo::new(), None, None, 2, 100)
            .unwrap();
    assert_eq!(p.amount_in_lockups, 100);
    assert_eq!(weighted(&p), 150);
    assert_eq!(li.lp_units_locked, 100);
    assert_eq!(li.unlock_timestamp, MOCK_TIME + 10_000_000 + 2 + 500_000);
    assert_eq!(u.lockup_positions_index, 1);
    assert_eq!(total, 100);

    let (p2, li2, u2, total2) =
        handle_increase_lockup(&c, MOCK_TIME, &sender, p, u, Some(li), Some(total), 2, 50).unwrap();
    assert_eq!(p2.amount_in_lockups, 150);
    assert_eq!(weighted(&p2), 225);
    assert_eq!(li2.lp_units_locked, 150);
    assert_eq!(u2.lockup_positions_index, 1);
    assert_eq!(total2, 150);
}

#[test]
fn increase_lockup_errors() {
    let c = config();
    let auction = "auction_contract".to_string();
    let user = UserInfo::new();
    assert_eq!(
        handle_increase_lockup(&c, MOCK_TIME, &"someone".to_string(), pool(0, 0), user, None, None, 1, 1)
            .unwrap_err(),
        LockdropError::Unauthorized
    );
    assert_eq!(
        handle_increase_lockup(&c, MOCK_TIME + 10_000_000, &auction, pool(0, 0), user, None, None, 1, 1)
            .unwrap_err(),
        LockdropError::LockWindowClosed
    );
    assert_eq!(
        handle_increase_lockup(&c, MOCK_TIME, &auction, pool(0, 0), user, None, None, 7, 1).unwrap_err(),
        LockdropError::InvalidDuration
    );
    let mut narrow = config();
    narrow.min_lock_duration = 2;
    assert_eq!(
        handle_increase_lockup(&narrow, MOCK_TIME, &auction, pool(0, 0), user, None, None, 1, 1)
            .unwrap_err(),
        LockdropError::LockupDurationOutOfRange(2, 52)
    );
    let full = UserInfo { total_ntrn_rewards: 0, ntrn_transferred: false, lockup_positions_index: 14 };
    assert_eq!(
        handle_increase_lockup(&c, MOCK_TIME, &auction, pool(0, 0), full, None, None, 1, 1).unwrap_err(),
        LockdropError::MaxPositionsReached(14)
    );
    assert_eq!(
        handle_increase_lockup(&c, MOCK_TIME, &auction, pool(u128::MAX, 0), user, None, None, 1, 1)
            .unwrap_err(),
        LockdropError::Overflow
    );
}

fn position(lp: u128) -> LockupInfo {
    LockupInfo {
        lp_units_locked: lp,
        astroport_lp_transferred: None,
        withdrawal_flag: false,
        ntrn_rewards: 0,
        generator_ntrn_debt: 0,
        generator_proxy_debt: vec![],
        unlock_timestamp: MOCK_TIME + 10_500_001,
    }
}

#[test]
fn withdraw_during_deposit_window_removes_emptied_position() {
    let c = config();
    let auction = "auction_contract".to_string();
    let user = UserInfo { total_ntrn_rewards: 0, ntrn_transferred: false, lockup_positions_index: 1 };
    let (p, li, u, total) =
        handle_withdraw_from_lockup(&c, MOCK_TIME, &auction, pool(100, 100), user, position(100), Some(100), 1, 100)
            .unwrap();
    assert_eq!(p.amount_in_lockups, 0);
    assert_eq!(weighted(&p), 0);
    assert!(li.is_none());
    assert_eq!(u.lockup_positions_index, 0);
    assert_eq!(total, 0);
}

#[test]
fn withdraw_once_in_withdrawal_window() {
    let c = config();
    let auction = "auction_contract".to_string();
    let user = UserInfo { total_ntrn_rewards: 0, ntrn_transferred: false, lockup_positions_index: 1 };
    let now = MOCK_TIME + 10_000_000;
    assert_eq!(
        handle_withdraw_from_lockup(&c, now, &auction, pool(100, 100), user, position(100), Some(100), 1, 51)
            .unwrap_err(),
        LockdropError::AmountExceedsMaxWithdrawal(50)
    );
    let (p, li, u, total) =
        handle_withdraw_from_lockup(&c, now, &auction, pool(100, 100), user, position(100), Some(100), 1, 50)
            .unwrap();
    assert_eq!(p.amount_in_lockups, 50);
    let li = li.unwrap();
    assert!(li.withdrawal_flag);
    assert_eq!(li.lp_units_locked, 50);
    assert_eq!(u.lockup_positions_index, 1);
    assert_eq!(total, 50);
    assert_eq!(
        handle_withdraw_from_lockup(&c, now, &auction, p, u, li, Some(total), 1, 1).unwrap_err(),
        LockdropError::WithdrawalAlreadyHappened
    );
}

#[test]
fn withdraw_errors() {
    let c = config();
    let auction = "auction_contract".to_string();
    let user = UserInfo::new();
    assert_eq!(
        handle_withdraw_from_lockup(&c, MOCK_TIME, &"x".to_string(), pool(10, 10), user, position(10), None, 1, 1)
            .unwrap_err(),
        LockdropError::Unauthorized
    );
    assert_eq!(
        handle_withdraw_from_lockup(&c, MOCK_TIME + 10_500_000, &auction, pool(10, 10), user, position(10), None, 1, 1)
            .unwrap_err(),
        LockdropError::WithdrawalWindowClosed
    );
    assert_eq!(
        handle_withdraw_from_lockup(&c, MOCK_TIME, &auction, pool(10, 10), user, position(10), None, 1, 0)
            .unwrap_err(),
        LockdropError::InvalidWithdrawalRequest
    );
}

#[test]
fn increase_then_withdraw_restores_pool() {
    let c = config();
    let auction = "auction_contract".to_string();
    let start = pool(1_000, 1_200);
    let (p, li, u, total) =
        handle_increase_lockup(&c, MOCK_TIME, &auction, start.clone(), UserInfo::new(), None, Some(7), 2, 40)
            .unwrap();
    let (p2, _li2, _u2, total2) =
        handle_withdraw_from_lockup(&c, MOCK_TIME, &auction, p, u, li, Some(total), 2, 40).unwrap();
    assert_eq!(p2.amount_in_lockups, start.amount_in_lockups);
    assert_eq!(weighted(&p2), weighted(&start));
    assert_eq!(total2, 7);
}

#[test]
fn initialize_pool_checks() {
    let c = config();
    let state = State { total_incentives_share: 10 };
    let lp = "lp_token".to_string();
    let auction = "auction_contract".to_string();
    assert_eq!(
        handle_initialize_pool(&c, state, pool(0, 0), MOCK_TIME, &lp, &"x".to_string(), 5).unwrap_err(),
        LockdropError::Unauthorized
    );
    assert_eq!(
        handle_initialize_pool(&c, state, pool(0, 0), MOCK_TIME, &"other".to_string(), &auction, 5).unwrap_err(),
        LockdropError::UnknownCw20Token
    );
    assert_eq!(
        handle_initialize_pool(&c, state, pool(0, 0), MOCK_TIME, &lp, &auction, 5).unwrap_err(),
        LockdropError::GeneratorNotSet
    );
    let mut with_generator = config();
    with_generator.generator = Some("generator".to_string());
    let (p, s) = handle_initialize_pool(&with_generator, state, pool(0, 0), MOCK_TIME, &lp, &auction, 5).unwrap();
    assert!(p.is_staked);
    assert_eq!(p.incentives_share, 5);
    assert_eq!(s.total_incentives_share, 15);
    assert_eq!(check_tokens_sent(0), Err(LockdropError::InvalidTokensSent));
    assert_eq!(check_tokens_sent(1), Ok(()));
}

#[test]
fn update_config_and_token_info() {
    let c = config();
    assert_eq!(
        handle_update_config(c.clone(), &"x".to_string(), None, None, &vec![]).unwrap_err(),
        LockdropError::Unauthorized
    );
    let owner = "owner".to_string();
    let c2 = handle_update_config(c.clone(), &owner, Some("auction2".to_string()), Some("gen".to_string()), &vec![])
        .unwrap();
    assert_eq!(c2.auction_contract, "auction2");
    assert_eq!(c2.generator, Some("gen".to_string()));
    let staked = vec![(PoolType::ATOM, false), (PoolType::USDC, true)];
    assert_eq!(
        handle_update_config(c2.clone(), &owner, None, Some("gen2".to_string()), &staked).unwrap_err(),
        LockdropError::LpTokensStaked(PoolType::USDC)
    );
    assert_eq!(
        handle_set_token_info(c.clone(), &"x".to_string(), "u".to_string(), "a".to_string(), "g".to_string())
            .unwrap_err(),
        LockdropError::Unauthorized
    );
    let (c3, atom, usdc) = handle_set_token_info(
        c,
        &"token_info_manager".to_string(),
        "usdc_lp".to_string(),
        "atom_lp".to_string(),
        "g".to_string(),
    )
    .unwrap();
    assert_eq!(c3.generator, Some("g".to_string()));
    assert_eq!(atom.lp_token, "atom_lp");
    assert_eq!(usdc.lp_token, "usdc_lp");
    assert_eq!(pool_types(), vec![PoolType::ATOM, PoolType::USDC]);
}

#[test]
fn pool_type_keys_round_trip() {
    for p in [PoolType::USDC, PoolType::ATOM] {
        assert_eq!(PoolType::from_vec(&p.bytes()), Ok(p));
    }
    assert_eq!(PoolType::USDC.bytes(), b"usdc".to_vec());
    assert_eq!(PoolType::ATOM.bytes(), b"atom".to_vec());
    assert_eq!(PoolType::ATOM.name(), "atom");
    assert_eq!(PoolType::from_vec(&b"luna".to_vec()), Err(LockdropError::InvalidPoolType));
}

#[test]
fn upgrade_old_lockup() {
    let mut c = config();
    c.generator = Some("gen".to_string());
    let old = LockupInfoV1 {
        lp_units_locked: 5,
        astroport_lp_transferred: None,
        withdrawal_flag: true,
        ntrn_rewards: 3,
        generator_ntrn_debt: 2,
        generator_proxy_debt: 9,
        unlock_timestamp: 77,
    };
    let asset = AssetInfo::NativeToken { denom: "uproxy".to_string() };
    let li = upgrade_lockup_info(&c, old, Some(asset.clone()));
    assert_eq!(li.generator_proxy_debt, vec![(asset, 9)]);
    assert_eq!(li.lp_units_locked, 5);
    let none = upgrade_lockup_info(&c, LockupInfoV1 { generator_proxy_debt: 0, ..old }, None);
    assert!(none.generator_proxy_debt.is_empty());
}

#[test]
fn update_owner() {
    assert!(check_execute_allowed(MigrationState::Completed, false).is_ok());
    let (config, _) = instantiate(MOCK_TIME, "addr0000".to_string(), instantiate_msg(vec![rewards_info(1, 0)]))
        .unwrap();
    let new_owner = String::from("new_owner");

    // Unauthorized check
    let err = propose_new_owner(&new_owner, &config.owner, new_owner.clone(), 100, MOCK_TIME).unwrap_err();
    assert_eq!(err, OwnershipError::Unauthorized);

    // Claim before a proposal
    assert!(claim_ownership(&new_owner, None, MOCK_TIME).is_err());

    // Propose new owner
    let proposal = propose_new_owner(&"owner".to_string(), &config.owner, new_owner.clone(), 100, MOCK_TIME).unwrap();

    // Unauthorized ownership claim
    let err = claim_ownership(&"invalid_addr".to_string(), Some(proposal.clone()), MOCK_TIME).unwrap_err();
    assert_eq!(err, OwnershipError::Unauthorized);

    // Claim ownership
    let owner = claim_ownership(&new_owner, Some(proposal), MOCK_TIME).unwrap();
    let config = Config { owner, ..config };
    assert_eq!(new_owner, config.owner);
}

#[test]
fn ownership_proposal_limits() {
    let owner = "owner".to_string();
    assert_eq!(
        propose_new_owner(&owner, &owner, owner.clone(), 1, 0).unwrap_err(),
        OwnershipError::SameOwner
    );
    assert_eq!(
        propose_new_owner(&owner, &owner, "n".to_string(), MAX_PROPOSAL_TTL + 1, 0).unwrap_err(),
        OwnershipError::TtlTooLong(MAX_PROPOSAL_TTL)
    );
    let p = propose_new_owner(&owner, &owner, "n".to_string(), 10, 5).unwrap();
    assert_eq!(p.ttl, 15);
    assert_eq!(claim_ownership(&"n".to_string(), Some(p), 16).unwrap_err(), OwnershipError::ProposalExpired);
    assert_eq!(drop_ownership_proposal(&"x".to_string(), &owner), Err(OwnershipError::Unauthorized));
    assert_eq!(drop_ownership_proposal(&owner, &owner), Ok(()));
}

const EPOCH_START: u64 = 1_654_552_800;

fn epoch_instantiate_msg() -> InstantiateMsg {
    InstantiateMsg {
        owner: Some("contract_owner".to_string()),
        token_info_manager: "contract_owner".to_string(),
        credits_contract: "credit_contract".to_string(),
        auction_contract: "auction_instance".to_string(),
        init_timestamp: EPOCH_START + 100_000,
        lock_window: 10_000_000,
        withdrawal_window: 500_000,
        min_lock_duration: 1,
        max_lock_duration: 52,
        max_positions_per_user: 14,
        lockup_rewards_info: vec![rewards_info(1, 0), rewards_info(52, ONE)],
    }
}

#[test]
fn proper_initialization_lockdrop() {
    let msg = epoch_instantiate_msg();
    let (resp, state) = instantiate(EPOCH_START + 90_000, "contract_owner".to_string(), msg.clone()).unwrap();
    assert_eq!(msg.owner.unwrap(), resp.owner);
    assert_eq!(None, resp.generator);
    assert_eq!(msg.init_timestamp, resp.init_timestamp);
    assert_eq!(msg.lock_window, resp.lock_window);
    assert_eq!(msg.withdrawal_window, resp.withdrawal_window);
    assert_eq!(msg.min_lock_duration, resp.min_lock_duration);
    assert_eq!(msg.max_lock_duration, resp.max_lock_duration);
    assert_eq!(0u128, resp.lockdrop_incentives);
    assert_eq!(0u128, state.total_incentives_share);
}

#[test]
fn test_update_config() {
    let (config, _) = instantiate(EPOCH_START + 90_000, "contract_owner".to_string(), epoch_instantiate_msg()).unwrap();
    let err = handle_update_config(
        config.clone(),
        &"wrong_owner".to_string(),
        Some("auction_contract".to_string()),
        Some("generator".to_string()),
        &vec![],
    )
    .unwrap_err();
    assert_eq!(err, LockdropError::Unauthorized);
    let resp = handle_update_config(
        config,
        &"contract_owner".to_string(),
        Some("auction_contract".to_string()),
        Some("generator".to_string()),
        &vec![],
    )
    .unwrap();
    assert_eq!(resp.auction_contract, "auction_contract");
    assert_eq!(resp.generator, Some("generator".to_string()));
    let funds = vec![Coin { denom: "untrn".to_string(), amount: 1_000_000_000 }];
    let (resp, _) = handle_increasing_ntrn_incentives(resp, EPOCH_START + 90_000, &funds).unwrap();
    assert_eq!(1_000_000_000u128, resp.lockdrop_incentives);
}

#[test]
fn test_initialize_pool() {
    let (mut config, state) =
        instantiate(EPOCH_START + 90_000, "contract_owner".to_string(), epoch_instantiate_msg()).unwrap();
    config.generator = Some("generator".to_string());
    let now = EPOCH_START + 90_000;
    let lp = "terraswap_lp_token".to_string();
    let auction = "auction_instance".to_string();
    let err = handle_initialize_pool(
        &config,
        state,
        new_pool(lp.clone()),
        now,
        &lp,
        &"wrong_owner".to_string(),
        10_000_000,
    )
    .unwrap_err();
    assert_eq!(err, LockdropError::Unauthorized);
    let (pool_resp, state) =
        handle_initialize_pool(&config, state, new_pool(lp.clone()), now, &lp, &auction, 10_000_000).unwrap();
    assert_eq!(10_000_000u128, state.total_incentives_share);
    assert_eq!(0u128, pool_resp.amount_in_lockups);
    assert_eq!(10_000_000u128, pool_resp.incentives_share);
    assert_eq!(0u128, weighted(&pool_resp));

    // Already supported
    let err = handle_initialize_pool(&config, state, pool_resp.clone(), now, &lp, &auction, 10_000_000).unwrap_err();
    assert_eq!(err, LockdropError::AlreadySupported);

    let lp2 = "terraswap_lp_token#2".to_string();
    let (pool_resp2, state) =
        handle_initialize_pool(&config, state, new_pool(lp2.clone()), now, &lp2, &auction, 10_400_000).unwrap();
    assert_eq!(20_400_000u128, state.total_incentives_share);
    assert_eq!(0u128, pool_resp2.amount_in_lockups);
    assert_eq!(10_400_000u128, pool_resp2.incentives_share);

    // Pools cannot be added post deposit window closure
    let err = handle_initialize_pool(&config, state, pool_resp, EPOCH_START + 900_000_00, &lp, &auction, 10_000_000)
        .unwrap_err();
    assert_eq!(err, LockdropError::PoolWindowClosed);
}

/// Rewards info in which a lockup of `d` weeks weighs `1 + (d - 1) / 12`.
fn weekly_rewards_info(durations: &[u64]) -> Vec<LockupRewardsInfo> {
    durations.iter().map(|d| rewards_info(*d, ONE * (*d as u128 - 1) / 12)).collect()
}

#[test]
fn test_increase_lockup() {
    let mut msg = epoch_instantiate_msg();
    msg.lockup_rewards_info = weekly_rewards_info(&[5, 10, 51, 53]);
    let (config, _) = instantiate(EPOCH_START + 90_000, "contract_owner".to_string(), msg).unwrap();
    let auction = "auction_instance".to_string();
    let now = EPOCH_START + 100_000;
    let fresh = UserInfo::new();
    let mut p = new_pool("terraswap_lp_token".to_string());
    p.incentives_share = 10_000_000;

    // Lockup duration needs to be between 1 and 52
    assert_eq!(
        handle_increase_lockup(&config, now, &auction, p.clone(), fresh, None, None, 53, 10_000).unwrap_err(),
        LockdropError::LockupDurationOutOfRange(1, 52)
    );
    assert_eq!(
        handle_increase_lockup(&config, now, &auction, p.clone(), fresh, None, None, 0, 10_000).unwrap_err(),
        LockdropError::InvalidDuration
    );

    // user #1 locks 10000 LP tokens for 5 weeks
    let (p, user1_li5, user1, user1_total) =
        handle_increase_lockup(&config, now, &auction, p, fresh, None, None, 5, 10_000).unwrap();
    assert_eq!(10_000u128, p.amount_in_lockups);
    assert_eq!(13_333u128, weighted(&p));
    assert_eq!(10_000_000u128, p.incentives_share);
    assert_eq!(user1_li5.lp_units_locked, 10_000);
    assert!(!user1_li5.withdrawal_flag);
    let incentives = 1_000_000_000u128;
    let reward = |w: u128, total: &PoolInfo| {
        calculate_astro_incentives_for_lockup(U256::from_u128(w), total.weighted_amount, 10_000_000, 10_000_000, incentives)
            .unwrap()
    };
    assert_eq!(1_000_000_000u128, reward(13_333, &p));

    // user #2 locks 10000 LP tokens for 10 weeks
    let (p, _, _, _) = handle_increase_lockup(&config, now, &auction, p, fresh, None, None, 10, 10_000).unwrap();
    assert_eq!(20_000u128, p.amount_in_lockups);
    assert_eq!(30_833u128, weighted(&p));
    assert_eq!(567_573_703u128, reward(17_500, &p));
    assert_eq!(432_426_296u128, reward(13_333, &p));

    // user #1 locks 10 more LP tokens for 51 weeks
    let (p, user1_li51, user1, _) =
        handle_increase_lockup(&config, now, &auction, p, user1, None, Some(user1_total), 51, 10).unwrap();
    assert_eq!(20_010u128, p.amount_in_lockups);
    assert_eq!(user1_li51.lp_units_locked, 10);
    assert_eq!(user1.lockup_positions_index, 2);
    assert_eq!(433_363_553u128, reward(13_333, &p) + reward(51, &p));

    // Deposit window closed
    assert_eq!(
        handle_increase_lockup(&config, EPOCH_START + 900_000_000, &auction, p, fresh, None, None, 5, 100)
            .unwrap_err(),
        LockdropError::LockWindowClosed
    );
}

#[test]
fn pool_rewards_stay_within_incentives() {
    let incentives = 1_000_000_000u128;
    let reward = |l: u128, w: u128, share: u128| {
        calculate_astro_incentives_for_lockup(U256::from_u128(l), U256::from_u128(w), share, 20_400_000, incentives)
            .unwrap()
    };
    let pool_a = reward(13_333, 30_833, 10_000_000) + reward(17_500, 30_833, 10_000_000);
    let pool_b = reward(7, 10, 10_400_000) + reward(3, 10, 10_400_000);
    assert_eq!(pool_a, 490_196_077);
    assert!(pool_a * 20_400_000 <= incentives * 10_000_000);
    assert!(pool_b * 20_400_000 <= incentives * 10_400_000);
    assert!(pool_a + pool_b <= incentives);
}
