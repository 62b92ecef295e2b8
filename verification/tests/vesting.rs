use neutron_tge::lockdrop::types::Coin;
use neutron_tge::vesting::accounts;
use neutron_tge::vesting::accounts::remove_vesting_accounts;
use neutron_tge::vesting::admin::{
    add_vesting_managers, check_cw20_register, get_vesting_token, native_register_amount,
    query_total_unclaimed_amount_at_height, query_unclaimed_amount_at_height,
    remove_vesting_managers, set_vesting_token, vesting_infos_page,
};
use neutron_tge::vesting::builder::VestingBaseBuilder;
use neutron_tge::vesting::schedule::{assert_vesting_schedules, compute_available_amount, compute_share};
use neutron_tge::vesting::types::{
    AssetInfo, Config, OrderBy, PaymentProblem, VestingAccount, VestingError, VestingInfo,
    VestingSchedule, VestingSchedulePoint, VestingState,
};

const OWNER1: &str = "owner1";
const TOKEN_MANAGER: &str = "token_manager";
const USER1: &str = "user1";
const USER2: &str = "user2";
const TOKEN_INITIAL_AMOUNT: u128 = 1_000_000_000_000_000;
const VESTING_TOKEN: &str = "vesting_token";
const BLOCK_TIME: u64 = 5;
const MOCK_TIME: u64 = 1_571_797_419;

fn schedule(start: u64, start_amount: u128, end: u64, end_amount: u128) -> VestingSchedule {
    VestingSchedule {
        start_point: VestingSchedulePoint { time: start, amount: start_amount },
        end_point: Some(VestingSchedulePoint { time: end, amount: end_amount }),
    }
}

fn account(address: &str, schedules: Vec<VestingSchedule>) -> VestingAccount {
    VestingAccount { address: address.to_string(), schedules }
}

fn vesting_config(token: AssetInfo) -> (Config, Vec<String>) {
    let mut builder = VestingBaseBuilder::default();
    builder.with_managers(vec![]).historical();
    let (config, managers) = builder.build(OWNER1.to_string(), TOKEN_MANAGER.to_string());
    let config = set_vesting_token(config, &TOKEN_MANAGER.to_string(), token).unwrap();
    (config, managers)
}

/// Registers accounts over the records stored so far, and stores the result.
fn register(
    records: &mut Vec<(String, VestingInfo)>,
    state: &mut Option<VestingState>,
    accounts: Vec<VestingAccount>,
    amount: u128,
) -> Result<(), VestingError> {
    let stored: Vec<Option<VestingInfo>> = accounts
        .iter()
        .map(|a| records.iter().find(|(addr, _)| *addr == a.address).map(|(_, i)| i.clone()))
        .collect();
    let out = accounts::register_vesting_accounts(&accounts, &stored, amount, *state)?;
    for saved in out.saved {
        records.retain(|(addr, _)| *addr != saved.address);
        records.push((saved.address, saved.info));
    }
    *state = Some(out.state);
    Ok(())
}

fn record(records: &[(String, VestingInfo)], address: &str) -> VestingInfo {
    records.iter().find(|(a, _)| a == address).unwrap().1.clone()
}

fn available(records: &[(String, VestingInfo)], address: &str, now: u64) -> u128 {
    compute_available_amount(now, &record(records, address)).unwrap()
}

fn claim_all(
    records: &mut Vec<(String, VestingInfo)>,
    state: &mut Option<VestingState>,
    address: &str,
    now: u64,
) -> u128 {
    let out = accounts::claim(record(records, address), *state, now, None).unwrap();
    records.retain(|(a, _)| a != address);
    records.push((address.to_string(), out.info));
    if out.state.is_some() {
        *state = out.state;
    }
    out.claim_amount
}

#[test]
fn claim() {
    let (config, managers) = vesting_config(AssetInfo::Token { contract_addr: "NTRN".to_string() });
    let mut records = vec![];
    let mut state = None;
    let mut owner_balance = TOKEN_INITIAL_AMOUNT;
    let mut vesting_balance = 0u128;
    let mut user_balance = 0u128;

    assert!(check_cw20_register(&config, &managers, &OWNER1.to_string(), &"NTRN".to_string()).is_ok());
    let wrong = vec![account(
        USER1,
        vec![schedule(100, 0, 101, 200), schedule(100, 0, 110, 100), schedule(100, 0, 200, 100)],
    )];
    assert_eq!(
        register(&mut records, &mut state, wrong, 300),
        Err(VestingError::VestingScheduleAmountError)
    );

    let accounts = vec![account(
        USER1,
        vec![schedule(100, 0, 101, 100), schedule(100, 0, 110, 100), schedule(100, 0, 200, 100)],
    )];
    register(&mut records, &mut state, accounts, 300).unwrap();
    owner_balance -= 300;
    vesting_balance += 300;

    assert_eq!(available(&records, USER1, MOCK_TIME), 300u128);
    assert_eq!(owner_balance, TOKEN_INITIAL_AMOUNT - 300u128);
    assert_eq!(vesting_balance, 300u128);

    let sent = claim_all(&mut records, &mut state, USER1, MOCK_TIME);
    vesting_balance -= sent;
    user_balance += sent;
    assert_eq!(record(&records, USER1).released_amount, 300u128);
    assert_eq!(vesting_balance, 0u128);
    assert_eq!(user_balance, 300u128);
    assert_eq!(owner_balance, TOKEN_INITIAL_AMOUNT - 300u128);
    assert_eq!(available(&records, USER1, MOCK_TIME), 0u128);
}

#[test]
fn claim_native() {
    let (config, managers) = vesting_config(AssetInfo::NativeToken { denom: VESTING_TOKEN.to_string() });
    let mut records = vec![];
    let mut state = None;

    assert_eq!(
        check_cw20_register(&config, &managers, &OWNER1.to_string(), &"RND".to_string()),
        Err(VestingError::Unauthorized)
    );

    let funds = vec![Coin { denom: VESTING_TOKEN.to_string(), amount: 300 }];
    let amount = native_register_amount(&config, &managers, &OWNER1.to_string(), &funds).unwrap();
    let accounts = vec![account(
        USER1,
        vec![schedule(100, 0, 101, 100), schedule(100, 0, 110, 100), schedule(100, 0, 200, 100)],
    )];
    register(&mut records, &mut state, accounts, amount).unwrap();
    let mut owner_balance = TOKEN_INITIAL_AMOUNT - amount;
    let mut vesting_balance = amount;

    assert_eq!(available(&records, USER1, MOCK_TIME), 300u128);
    assert_eq!(owner_balance, TOKEN_INITIAL_AMOUNT - 300u128);
    assert_eq!(vesting_balance, 300u128);

    let sent = claim_all(&mut records, &mut state, USER1, MOCK_TIME);
    vesting_balance -= sent;
    let user_balance = sent;
    assert_eq!(record(&records, USER1).released_amount, 300u128);
    assert_eq!(vesting_balance, 0);
    assert_eq!(user_balance, 300);
    owner_balance += 0;
    assert_eq!(owner_balance, TOKEN_INITIAL_AMOUNT - 300u128);
    assert_eq!(available(&records, USER1, MOCK_TIME), 0u128);
}

#[test]
fn register_vesting_accounts() {
    let ntrn = "NTRN".to_string();
    let (config, managers) = vesting_config(AssetInfo::Token { contract_addr: ntrn.clone() });
    let mut records = vec![];
    let mut state = None;
    let mut owner_balance = TOKEN_INITIAL_AMOUNT;
    let mut vesting_balance = 0u128;

    let bad = vec![account(USER1, vec![schedule(150, 0, 100, 100)])];
    assert_eq!(
        register(&mut records, &mut state, bad, 100),
        Err(VestingError::VestingScheduleError(USER1.to_string()))
    );

    // user1 holds no tokens, so the token transfer itself fails
    let user1_balance = 0u128;
    assert_eq!(user1_balance.checked_sub(100), None);

    assert_eq!(
        check_cw20_register(&config, &managers, &OWNER1.to_string(), &"NONAME".to_string()),
        Err(VestingError::Unauthorized)
    );

    let funds = vec![Coin { denom: "random_coin".to_string(), amount: 100 }];
    assert_eq!(
        native_register_amount(&config, &managers, &OWNER1.to_string(), &funds),
        Err(VestingError::Unauthorized)
    );

    check_cw20_register(&config, &managers, &OWNER1.to_string(), &ntrn).unwrap();
    register(&mut records, &mut state, vec![account(USER1, vec![schedule(100, 0, 150, 100)])], 100).unwrap();
    owner_balance -= 100;
    vesting_balance += 100;
    let user1_vesting_amount = available(&records, USER1, MOCK_TIME);
    assert_eq!(user1_vesting_amount, 100u128);
    assert_eq!(owner_balance, TOKEN_INITIAL_AMOUNT - 100u128);
    assert_eq!(vesting_balance, 100u128);

    register(&mut records, &mut state, vec![account(USER2, vec![schedule(100, 0, 150, 200)])], 200).unwrap();
    owner_balance -= 200;
    vesting_balance += 200;
    let user2_vesting_amount = available(&records, USER2, MOCK_TIME);
    assert_eq!(owner_balance, TOKEN_INITIAL_AMOUNT - 300u128);
    assert_eq!(vesting_balance, 300u128);
    assert_eq!(user2_vesting_amount, 200u128);
    assert_eq!(user1_vesting_amount, 100u128);

    register(&mut records, &mut state, vec![account(USER1, vec![schedule(100, 0, 200, 10)])], 10).unwrap();
    owner_balance -= 10;
    vesting_balance += 10;
    assert_eq!(available(&records, USER1, MOCK_TIME), 110u128);
    assert_eq!(owner_balance, TOKEN_INITIAL_AMOUNT - 310u128);
    assert_eq!(vesting_balance, 310u128);

    let sent = claim_all(&mut records, &mut state, USER1, MOCK_TIME);
    vesting_balance -= sent;
    assert_eq!(record(&records, USER1).released_amount, 110u128);
    assert_eq!(vesting_balance, 200u128);
    assert_eq!(sent, 110u128);
    assert_eq!(owner_balance, TOKEN_INITIAL_AMOUNT - 310u128);
}

#[test]
fn register_vesting_accounts_native() {
    let (config, managers) = vesting_config(AssetInfo::NativeToken { denom: VESTING_TOKEN.to_string() });
    let mut records = vec![];
    let mut state = None;

    assert_eq!(
        check_cw20_register(&config, &managers, &OWNER1.to_string(), &"random".to_string()),
        Err(VestingError::Unauthorized)
    );
    let wrong = vec![Coin { denom: "random_coin".to_string(), amount: 100 }];
    assert_eq!(
        native_register_amount(&config, &managers, &OWNER1.to_string(), &wrong),
        Err(VestingError::Payment(PaymentProblem::MissingDenom(VESTING_TOKEN.to_string())))
    );

    let mut owner_balance = TOKEN_INITIAL_AMOUNT;
    let mut vesting_balance = 0u128;
    for (user, end_amount) in [(USER1, 100u128), (USER2, 200u128), (USER1, 10u128)] {
        let funds = vec![Coin { denom: VESTING_TOKEN.to_string(), amount: end_amount }];
        let amount = native_register_amount(&config, &managers, &OWNER1.to_string(), &funds).unwrap();
        let end = if end_amount == 10 { 200 } else { 150 };
        register(&mut records, &mut state, vec![account(user, vec![schedule(100, 0, end, end_amount)])], amount)
            .unwrap();
        owner_balance -= amount;
        vesting_balance += amount;
    }
    assert_eq!(available(&records, USER1, MOCK_TIME), 110u128);
    assert_eq!(available(&records, USER2, MOCK_TIME), 200u128);
    assert_eq!(owner_balance, TOKEN_INITIAL_AMOUNT - 310u128);
    assert_eq!(vesting_balance, 310u128);

    let sent = claim_all(&mut records, &mut state, USER1, MOCK_TIME);
    vesting_balance -= sent;
    assert_eq!(record(&records, USER1).released_amount, 110u128);
    assert_eq!(vesting_balance, 200);
    assert_eq!(sent, 110u128);
    assert_eq!(owner_balance, TOKEN_INITIAL_AMOUNT - 310u128);
}

#[test]
fn query_at_height() {
    let (config, managers) = vesting_config(AssetInfo::NativeToken { denom: VESTING_TOKEN.to_string() });
    let start = MOCK_TIME;
    let end = start + 100 * BLOCK_TIME;
    let mut records = vec![];
    let mut state = None;
    let funds = vec![Coin { denom: VESTING_TOKEN.to_string(), amount: 1200 }];
    let amount = native_register_amount(&config, &managers, &OWNER1.to_string(), &funds).unwrap();
    register(
        &mut records,
        &mut state,
        vec![
            account(USER1, vec![schedule(start, 0, end, 50), schedule(start, 0, end, 150)]),
            account(USER2, vec![schedule(start, 0, end, 1000)]),
        ],
        amount,
    )
    .unwrap();

    // snapshots of user1's record and of the totals, one per ten blocks
    let mut user_history = vec![record(&records, USER1)];
    let mut total_history = vec![state.unwrap()];
    let mut now = start;
    for _ in 1..=10 {
        assert_eq!(available(&records, USER1, now), 0u128);
        now += 10 * BLOCK_TIME;
        assert_eq!(available(&records, USER1, now), 20u128);
        claim_all(&mut records, &mut state, USER1, now);
        assert_eq!(available(&records, USER1, now), 0u128);
        user_history.push(record(&records, USER1));
        total_history.push(state.unwrap());
    }
    now += 100 * BLOCK_TIME;
    assert_eq!(available(&records, USER1, now), 0u128);

    assert_eq!(query_unclaimed_amount_at_height(None), Ok(0u128));
    assert_eq!(query_total_unclaimed_amount_at_height(None), Ok(0u128));
    let max_unclaimed_user1: u128 = 200;
    let max_unclaimed_total: u128 = 1200;
    for i in 0..=10usize {
        assert_eq!(
            query_unclaimed_amount_at_height(Some(user_history[i].clone())),
            Ok(max_unclaimed_user1 - (i as u128) * 20)
        );
        assert_eq!(
            query_total_unclaimed_amount_at_height(Some(total_history[i])),
            Ok(max_unclaimed_total - (i as u128) * 20)
        );
    }
}

#[test]
fn vesting_managers() {
    let (config, managers) = vesting_config(AssetInfo::NativeToken { denom: VESTING_TOKEN.to_string() });
    assert_eq!(managers.len(), 0);
    let owner = OWNER1.to_string();
    let user1 = USER1.to_string();
    let funds = vec![Coin { denom: VESTING_TOKEN.to_string(), amount: 50 }];

    assert_eq!(
        native_register_amount(&config, &managers, &user1, &vec![]),
        Err(VestingError::Unauthorized)
    );
    assert_eq!(
        add_vesting_managers(&user1, &owner, managers.clone(), &vec![user1.clone()]).unwrap_err(),
        VestingError::Unauthorized
    );
    let (managers, added) = add_vesting_managers(&owner, &owner, managers, &vec![user1.clone()]).unwrap();
    assert_eq!(managers, vec![user1.clone()]);
    assert_eq!(added, vec![user1.clone()]);

    assert_eq!(native_register_amount(&config, &managers, &user1, &funds), Ok(50));
    assert_eq!(
        native_register_amount(&config, &managers, &USER2.to_string(), &vec![]),
        Err(VestingError::Unauthorized)
    );
    assert_eq!(
        remove_vesting_managers(&user1, &owner, managers.clone(), &vec![user1.clone()]).unwrap_err(),
        VestingError::Unauthorized
    );
    let (managers, removed) = remove_vesting_managers(&owner, &owner, managers, &vec![user1.clone()]).unwrap();
    assert_eq!(managers.len(), 0);
    assert_eq!(removed, vec![user1]);
}

#[test]
fn proper_initialization() {
    let mut builder = VestingBaseBuilder::default();
    builder.with_managers(vec!["manager1".to_string(), "manager2".to_string()]);
    let (config, managers) = builder.build("owner".to_string(), "token_info_manager".to_string());
    let token = AssetInfo::Token { contract_addr: "ntrn_token".to_string() };
    let config = set_vesting_token(config, &"token_info_manager".to_string(), token.clone()).unwrap();
    assert_eq!(config.owner, "owner");
    assert_eq!(config.token_info_manager, "token_info_manager");
    assert_eq!(get_vesting_token(&config), Ok(token));
    assert_eq!(managers, vec!["manager1".to_string(), "manager2".to_string()]);
}

#[test]
fn schedules_must_be_increasing() {
    let good = vec![schedule(100, 0, 200, 10), VestingSchedule {
        start_point: VestingSchedulePoint { time: 5, amount: 7 },
        end_point: None,
    }];
    assert_eq!(assert_vesting_schedules(&"a".to_string(), &good), Ok(()));
    let flat = vec![schedule(100, 10, 100, 10)];
    assert_eq!(assert_vesting_schedules(&"a".to_string(), &flat), Ok(()));
    let bad = vec![schedule(100, 10, 100, 11)];
    assert_eq!(
        assert_vesting_schedules(&"a".to_string(), &bad),
        Err(VestingError::VestingScheduleError("a".to_string()))
    );
}

#[test]
fn linear_release_floors() {
    let info = VestingInfo { schedules: vec![schedule(100, 10, 200, 110)], released_amount: 0 };
    assert_eq!(compute_available_amount(50, &info), Ok(0));
    assert_eq!(compute_available_amount(100, &info), Ok(10));
    assert_eq!(compute_available_amount(133, &info), Ok(43));
    assert_eq!(compute_available_amount(200, &info), Ok(110));
    assert_eq!(compute_available_amount(10_000, &info), Ok(110));
    let claimed = VestingInfo { released_amount: 40, ..info.clone() };
    assert_eq!(compute_available_amount(133, &claimed), Ok(3));
    assert_eq!(compute_share(&claimed), Ok(70));
}

#[test]
fn claim_more_than_available_fails() {
    let info = VestingInfo { schedules: vec![schedule(100, 0, 200, 100)], released_amount: 0 };
    let state = Some(VestingState { total_granted: 100, total_released: 0 });
    assert_eq!(accounts::claim(info.clone(), state, 150, Some(51)).unwrap_err(), VestingError::AmountIsNotAvailable);
    let out = accounts::claim(info, state, 150, Some(20)).unwrap();
    assert_eq!(out.claim_amount, 20);
    assert_eq!(out.available_amount, 50);
    assert_eq!(out.info.released_amount, 20);
    assert_eq!(out.state, Some(VestingState { total_granted: 100, total_released: 20 }));
}

#[test]
fn removal_claws_back_unclaimed() {
    let info = VestingInfo { schedules: vec![schedule(100, 0, 200, 100)], released_amount: 30 };
    let state = Some(VestingState { total_granted: 150, total_released: 30 });
    let owner = "owner".to_string();
    assert_eq!(
        remove_vesting_accounts(&"x".to_string(), &owner, &vec!["u".to_string()], &vec![Some(info.clone())], state)
            .unwrap_err(),
        VestingError::Unauthorized
    );
    let out = remove_vesting_accounts(
        &owner,
        &owner,
        &vec!["u".to_string(), "missing".to_string()],
        &vec![Some(info), None],
        state,
    )
    .unwrap();
    assert_eq!(out.clawbacks, vec![("u".to_string(), 70u128)]);
    assert_eq!(out.state, Some(VestingState { total_granted: 50, total_released: 0 }));
}

#[test]
fn pages_are_bounded() {
    let page = vesting_infos_page(None, Some(100), Some(OrderBy::Asc));
    assert_eq!(page.limit, 30);
    assert!(page.ascending);
    let page = vesting_infos_page(Some("a".to_string()), None, None);
    assert_eq!(page.limit, 10);
    assert!(!page.ascending);
    assert_eq!(page.max, Some("a".to_string()));
}

/// The records a listing reads from a store, in the page the library picks.
fn read_vesting_infos(
    storage: &cosmwasm_std::testing::MockStorage,
    start_after: Option<&str>,
    limit: Option<u32>,
    order_by: Option<OrderBy>,
) -> Vec<(cosmwasm_std::Addr, cosmwasm_std::Uint128)> {
    let map: cw_storage_plus::SnapshotMap<cosmwasm_std::Addr, cosmwasm_std::Uint128> =
        cw_storage_plus::SnapshotMap::new(
            "vesting_info",
            "vesting_info__checkpoints",
            "vesting_info__changelog",
            cw_storage_plus::Strategy::Never,
        );
    let page = vesting_infos_page(start_after.map(|s| s.to_string()), limit, order_by);
    let min = page.min.map(|m| cw_storage_plus::Bound::exclusive(cosmwasm_std::Addr::unchecked(m)));
    let max = page.max.map(|m| cw_storage_plus::Bound::exclusive(cosmwasm_std::Addr::unchecked(m)));
    let order = if page.ascending { cosmwasm_std::Order::Ascending } else { cosmwasm_std::Order::Descending };
    map.range(storage, min, max, order).take(page.limit as usize).filter_map(|v| v.ok()).collect()
}

#[test]
fn state_read_vesting_infos_as_expected() {
    let mut storage = cosmwasm_std::testing::MockStorage::new();
    let map: cw_storage_plus::SnapshotMap<cosmwasm_std::Addr, cosmwasm_std::Uint128> =
        cw_storage_plus::SnapshotMap::new(
            "vesting_info",
            "vesting_info__checkpoints",
            "vesting_info__changelog",
            cw_storage_plus::Strategy::Never,
        );
    let vi_mock = cosmwasm_std::Uint128::zero();
    for i in 1..5 {
        let key = cosmwasm_std::Addr::unchecked(format!("address{}", i));
        map.save(&mut storage, key, &vi_mock, 1).unwrap();
    }
    let addr = |s: &str| cosmwasm_std::Addr::unchecked(s);

    let res = read_vesting_infos(&storage, Some("address2"), None, Some(OrderBy::Asc));
    assert_eq!(res, vec![(addr("address3"), vi_mock), (addr("address4"), vi_mock)]);

    let res = read_vesting_infos(&storage, Some("address2"), Some(1), Some(OrderBy::Asc));
    assert_eq!(res, vec![(addr("address3"), vi_mock)]);

    let res = read_vesting_infos(&storage, Some("address3"), None, Some(OrderBy::Desc));
    assert_eq!(res, vec![(addr("address2"), vi_mock), (addr("address1"), vi_mock)]);

    let res = read_vesting_infos(&storage, Some("address3"), Some(1), Some(OrderBy::Desc));
    assert_eq!(res, vec![(addr("address2"), vi_mock)]);
}

#[test]
fn claims_never_exceed_granted() {
    let mut info = VestingInfo {
        schedules: vec![schedule(100, 10, 200, 110), schedule(150, 0, 250, 40)],
        released_amount: 0,
    };
    let mut state = Some(VestingState { total_granted: 150, total_released: 0 });
    let mut claimed = 0u128;
    for now in [120u64, 160, 199, 240, 300, 400] {
        let out = accounts::claim(info, state, now, None).unwrap();
        claimed += out.claim_amount;
        assert_eq!(out.info.released_amount, claimed);
        assert!(claimed <= 150);
        info = out.info;
        if out.state.is_some() {
            state = out.state;
        }
        assert_eq!(compute_available_amount(now, &info).unwrap(), 0);
    }
    assert_eq!(claimed, 150);
    assert_eq!(state, Some(VestingState { total_granted: 150, total_released: 150 }));
}
