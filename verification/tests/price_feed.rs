use cosmwasm_std::Binary;
use neutron_tge::lockdrop::types::Coin;
use neutron_tge::periphery::{ClaimResponse, PriceFeedQuery, PriceFeedResponse};
use neutron_tge::price_feed::{
    do_ibc_packet_receive, enforce_order_and_version, instantiate, try_request, try_update_config,
    try_update_owner, Input, PriceFeedError, PriceFeedInstantiateMsg, PriceFeedRate,
    UpdateConfigMsg, DEFAULT_MAX_UPDATE_INTERVAL,
};

fn config() -> neutron_tge::price_feed::PriceFeedConfig {
    instantiate(
        "creator".to_string(),
        PriceFeedInstantiateMsg {
            client_id: "client".to_string(),
            oracle_script_id: 1,
            ask_count: 4,
            min_count: 3,
            fee_limit: vec![Coin { denom: "uband".to_string(), amount: 100 }],
            prepare_gas: 10,
            execute_gas: 20,
            multiplier: 1_000_000,
            symbols: vec!["ATOM".to_string(), "USDC".to_string()],
            owner: None,
            max_update_interval: None,
        },
    )
}

#[test]
fn ttt() {
    let x = "AAAAAgAAAAAA0+hvAAAAAAAPQdw=";
    let b = Binary::from_base64(x).unwrap();
    let symbols = vec!["ATOM".to_string(), "USDC".to_string()];
    let saved = do_ibc_packet_receive(&symbols, true, &b.to_vec(), 7, 99).unwrap();
    assert_eq!(b.len(), 20);
    assert_eq!(
        saved,
        vec![
            ("ATOM".to_string(), PriceFeedRate::new(13_887_599, 99, 7)),
            ("USDC".to_string(), PriceFeedRate::new(999_900, 99, 7)),
        ]
    );
}

#[test]
fn failed_or_garbled_responses_are_refused() {
    let symbols = vec!["ATOM".to_string()];
    assert_eq!(
        do_ibc_packet_receive(&symbols, false, &vec![0, 0, 0, 0], 1, 1).unwrap_err(),
        PriceFeedError::RequestNotSuccess
    );
    assert_eq!(
        do_ibc_packet_receive(&symbols, true, &vec![0, 0, 0, 1, 0, 0], 1, 1).unwrap_err(),
        PriceFeedError::RequestNotSuccess
    );
    assert_eq!(do_ibc_packet_receive(&symbols, true, &vec![0, 0, 0, 0], 1, 1).unwrap(), vec![]);
}

#[test]
fn requests_are_rate_limited() {
    let c = config();
    assert_eq!(c.owner, "creator");
    assert_eq!(c.max_update_interval, DEFAULT_MAX_UPDATE_INTERVAL);
    assert_eq!(try_request(&c, 1_000, Some(900)).unwrap_err(), PriceFeedError::TooEarly);
    let (data, last) = try_request(&c, 1_020, Some(900)).unwrap();
    assert_eq!(last, 1_020);
    let mut expected = vec![0, 0, 0, 2, 0, 0, 0, 4];
    expected.extend_from_slice(b"ATOM");
    expected.extend_from_slice(&[0, 0, 0, 4]);
    expected.extend_from_slice(b"USDC");
    expected.extend_from_slice(&1_000_000u64.to_be_bytes());
    assert_eq!(data, expected);
    let input = Input { symbols: vec![], multiplier: 1 };
    assert_eq!(input.try_to_vec().unwrap(), vec![0, 0, 0, 0, 0, 0, 0, 0, 0, 0, 0, 1]);
}

#[test]
fn config_updates() {
    let c = config();
    let update = UpdateConfigMsg {
        client_id: None,
        oracle_script_id: Some(9),
        ask_count: None,
        min_count: None,
        fee_limit: None,
        prepare_gas: None,
        execute_gas: None,
        multiplier: Some(10),
        symbols: Some(vec!["NTRN".to_string()]),
        max_update_interval: Some(1),
    };
    let c2 = try_update_config(c.clone(), update);
    assert_eq!(c2.oracle_script_id, 9);
    assert_eq!(c2.multiplier, 10);
    assert_eq!(c2.symbols, vec!["NTRN".to_string()]);
    assert_eq!(c2.client_id, "client");
    assert_eq!(c2.max_update_interval, DEFAULT_MAX_UPDATE_INTERVAL);
    let c3 = try_update_owner(c2, "new".to_string());
    assert_eq!(c3.owner, "new");
}

#[test]
fn channel_must_be_bandchain_and_unordered() {
    let v = "bandchain-1".to_string();
    assert_eq!(enforce_order_and_version(&v, None, true), Ok(()));
    assert_eq!(enforce_order_and_version(&v, Some(v.clone()), true), Ok(()));
    assert_eq!(
        enforce_order_and_version(&"ics20-1".to_string(), None, true),
        Err(PriceFeedError::InvalidIbcVersion("ics20-1".to_string()))
    );
    assert_eq!(
        enforce_order_and_version(&v, Some("x".to_string()), true),
        Err(PriceFeedError::InvalidIbcVersion("x".to_string()))
    );
    assert_eq!(enforce_order_and_version(&v, None, false), Err(PriceFeedError::OnlyUnorderedChannel));
}

#[test]
fn neighbour_messages() {
    let q = PriceFeedQuery::GetPrice { symbols: vec!["ATOM".to_string()] };
    assert_eq!(q.clone(), q);
    let r = PriceFeedResponse { prices: vec![1, 2], timestamp: 3 };
    assert_eq!(r.prices.len(), 2);
    assert!(ClaimResponse { is_claimed: true }.is_claimed);
}
