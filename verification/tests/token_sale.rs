use neutron_tge::lockdrop::types::Coin;
use neutron_tge::token_sale::{
    execute_deposit, execute_setup_event, execute_withdraw, execute_withdraw_reserve,
    execute_withdraw_tokens, instantiate, query_info, DepositInfo, DepositProblem, EventConfig,
    EventConfigProblem, SaleConfig, TokenSaleError, WithdrawProblem, WithdrawTokensProblem,
    DEFAULT_SLOT_DURATION,
};

const NOW: u64 = 1_000;

fn event() -> EventConfig {
    EventConfig { amount: 1_000_000, stage1_begin: 2_000, stage2_begin: 3_000, stage2_end: 3_000 + 10 * 3600 }
}

fn sale() -> SaleConfig {
    let (config, total) = instantiate(
        "owner".to_string(),
        "reserve".to_string(),
        "token".to_string(),
        "uusdc".to_string(),
        None,
    );
    assert_eq!(total, 0);
    assert_eq!(config.slot_duration, DEFAULT_SLOT_DURATION);
    execute_setup_event(config, &"owner".to_string(), NOW, event()).unwrap()
}

fn coin(amount: u128) -> Vec<Coin> {
    vec![Coin { denom: "uusdc".to_string(), amount }]
}

#[test]
fn setup_event_checks() {
    let (config, _) = instantiate("owner".to_string(), "r".to_string(), "t".to_string(), "uusdc".to_string(), Some(100));
    let owner = "owner".to_string();
    assert_eq!(
        execute_setup_event(config.clone(), &"x".to_string(), NOW, event()).unwrap_err(),
        TokenSaleError::Unauthorized
    );
    assert_eq!(
        execute_setup_event(config.clone(), &owner, 2_001, event()).unwrap_err(),
        TokenSaleError::InvalidEventConfig(EventConfigProblem::Stage1InPast(2_001))
    );
    let backwards = EventConfig { stage2_begin: 1_500, ..event() };
    assert_eq!(
        execute_setup_event(config.clone(), &owner, NOW, backwards).unwrap_err(),
        TokenSaleError::InvalidEventConfig(EventConfigProblem::Stage2BeforeStage1)
    );
    let ends_early = EventConfig { stage2_end: 2_500, ..event() };
    assert_eq!(
        execute_setup_event(config.clone(), &owner, NOW, ends_early).unwrap_err(),
        TokenSaleError::InvalidEventConfig(EventConfigProblem::Stage2EndBeforeBegin)
    );
    let short = EventConfig { stage2_end: 3_050, ..event() };
    assert_eq!(
        execute_setup_event(config.clone(), &owner, NOW, short).unwrap_err(),
        TokenSaleError::InvalidEventConfig(EventConfigProblem::Stage2TooShort(100))
    );
    let set = execute_setup_event(config, &owner, NOW, event()).unwrap();
    assert_eq!(set.event_config, Some(event()));
    assert_eq!(
        execute_setup_event(set, &owner, NOW, event()).unwrap_err(),
        TokenSaleError::DuplicatePostInit
    );
}

#[test]
fn deposits_in_first_stage_only() {
    let config = sale();
    let info = DepositInfo { amount: 0, withdrew_stage2: false, tokens_claimed: false };
    assert_eq!(
        execute_deposit(&config, 1_999, &coin(10), info, 0).unwrap_err(),
        TokenSaleError::DepositError(DepositProblem::NotStarted(1_999, 2_000))
    );
    assert_eq!(
        execute_deposit(&config, 3_000, &coin(10), info, 0).unwrap_err(),
        TokenSaleError::DepositError(DepositProblem::Finished)
    );
    assert_eq!(
        execute_deposit(&config, 2_500, &vec![], info, 0).unwrap_err(),
        TokenSaleError::DepositError(DepositProblem::NotOneCoin)
    );
    assert_eq!(
        execute_deposit(&config, 2_500, &coin(0), info, 0).unwrap_err(),
        TokenSaleError::DepositError(DepositProblem::NotPositive)
    );
    let (info, total, amount) = execute_deposit(&config, 2_500, &coin(10), info, 5).unwrap();
    assert_eq!((info.amount, total, amount), (10, 15, 10));
}

#[test]
fn withdrawals_shrink_in_second_stage() {
    let config = sale();
    let info = DepositInfo { amount: 1_000, withdrew_stage2: false, tokens_claimed: false };
    // ten one-hour slots; 2.5 hours in, eight slots are left counting the current one
    let now = 3_000 + 9_000;
    let resp = query_info(&config, now, info, 4_000).unwrap();
    assert_eq!(resp.withdrawable_amount, 800);
    assert_eq!(resp.tokens_to_claim, 250_000);
    assert!(!resp.clamable);
    assert_eq!(
        execute_withdraw(&config, now, info, 4_000, Some(801)).unwrap_err(),
        TokenSaleError::WithdrawError(WithdrawProblem::ExceedsWithdrawable(800))
    );
    assert_eq!(
        execute_withdraw(&config, now, info, 4_000, Some(0)).unwrap_err(),
        TokenSaleError::WithdrawError(WithdrawProblem::ZeroAmount)
    );
    let (after, total, sent) = execute_withdraw(&config, now, info, 4_000, Some(300)).unwrap();
    assert_eq!((after.amount, total, sent), (700, 3_700, 300));
    assert!(after.withdrew_stage2);
    assert_eq!(
        execute_withdraw(&config, now + 1, after, total, None).unwrap_err(),
        TokenSaleError::WithdrawError(WithdrawProblem::AlreadyWithdrewStage2)
    );
    assert_eq!(
        execute_withdraw(&config, 3_000 + 36_000, after, total, None).unwrap_err(),
        TokenSaleError::WithdrawError(WithdrawProblem::PeriodOver)
    );
    let empty = DepositInfo { amount: 0, ..info };
    assert_eq!(
        execute_withdraw(&config, 2_500, empty, 4_000, None).unwrap_err(),
        TokenSaleError::WithdrawError(WithdrawProblem::NothingToWithdraw)
    );
    let (all, total, sent) = execute_withdraw(&config, 2_500, info, 4_000, None).unwrap();
    assert_eq!((all.amount, total, sent), (0, 3_000, 1_000));
}

#[test]
fn tokens_and_reserve_after_the_sale() {
    let config = sale();
    let end = 3_000 + 36_000;
    let info = DepositInfo { amount: 1_000, withdrew_stage2: true, tokens_claimed: false };
    assert_eq!(
        execute_withdraw_tokens(&config, end - 1, Some(info), 4_000).unwrap_err(),
        TokenSaleError::WithdrawTokensError(WithdrawTokensProblem::NotYet)
    );
    assert_eq!(
        execute_withdraw_tokens(&config, end, None, 4_000).unwrap_err(),
        TokenSaleError::WithdrawTokensError(WithdrawTokensProblem::DepositNotFound)
    );
    let (claimed, amount) = execute_withdraw_tokens(&config, end, Some(info), 4_000).unwrap();
    assert_eq!(amount, 250_000);
    assert!(claimed.tokens_claimed);
    assert_eq!(
        execute_withdraw_tokens(&config, end, Some(claimed), 4_000).unwrap_err(),
        TokenSaleError::WithdrawTokensError(WithdrawTokensProblem::AlreadyClaimed)
    );
    let dust = DepositInfo { amount: 1, ..info };
    assert_eq!(
        execute_withdraw_tokens(&config, end, Some(dust), u128::MAX).unwrap_err(),
        TokenSaleError::WithdrawTokensError(WithdrawTokensProblem::NoneAvailable)
    );
    let resp = query_info(&config, end, info, 4_000).unwrap();
    assert!(resp.clamable);
    assert_eq!(resp.withdrawable_amount, 0);
    assert_eq!(
        execute_withdraw_reserve(&config, &"x".to_string(), end),
        Err(TokenSaleError::Unauthorized)
    );
    assert_eq!(
        execute_withdraw_reserve(&config, &"owner".to_string(), end - 1),
        Err(TokenSaleError::InvalidReserveWithdraw)
    );
    assert_eq!(execute_withdraw_reserve(&config, &"owner".to_string(), end), Ok(()));
    let (fresh, _) = instantiate("o".to_string(), "r".to_string(), "t".to_string(), "d".to_string(), None);
    assert_eq!(query_info(&fresh, end, info, 1).unwrap_err(), TokenSaleError::EmptyEventConfig);
}

#[test]
fn deposit_then_withdraw_restores_totals() {
    let config = sale();
    let info = DepositInfo { amount: 40, withdrew_stage2: false, tokens_claimed: false };
    let (after, total, _) = execute_deposit(&config, 2_100, &coin(60), info, 500).unwrap();
    let (back, total2, sent) = execute_withdraw(&config, 2_100, after, total, Some(60)).unwrap();
    assert_eq!(sent, 60);
    assert_eq!(back, info);
    assert_eq!(total2, 500);
}

#[test]
fn all_claims_within_sale() {
    let config = sale();
    let end = event().stage2_end;
    let deposits = [1u128, 1, 1];
    let total: u128 = deposits.iter().sum();
    let mut given = 0u128;
    for d in deposits {
        let info = DepositInfo { amount: d, withdrew_stage2: false, tokens_claimed: false };
        let (after, amount) = execute_withdraw_tokens(&config, end, Some(info), total).unwrap();
        assert!(after.tokens_claimed);
        assert_eq!(amount, 333_333);
        given += amount;
    }
    assert_eq!(given, 999_999);
    assert!(given <= event().amount);
}
