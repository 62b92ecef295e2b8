//! The token sale: deposits of the base denomination during the first
//! stage, a single shrinking withdrawal during the second, and the sold
//! tokens shared out by deposit afterwards.
use crate::lockdrop::types::Coin;
use crate::numeric::{decimal_fractional, u128_checked_multiply_ratio, Dec, DECIMAL_FRACTIONAL};
use vstd::prelude::*;

verus! {

/// The slot length, in seconds, where none is configured.
pub const DEFAULT_SLOT_DURATION: u64 = 3600;

/// The stages of the sale.
#[derive(Clone, Copy, Debug, PartialEq, Eq, Structural)]
pub struct EventConfig {
    /// Tokens on sale
    pub amount: u128,
    /// Timestamp when deposit and withdraw is allowed
    pub stage1_begin: u64,
    /// Timestamp when withdraw is allowed one time; the share allowed
    /// decreases from all to nothing over the stage
    pub stage2_begin: u64,
    pub stage2_end: u64,
}

/// The sale's parameters.
#[derive(Clone, Debug)]
pub struct SaleConfig {
    pub owner: String,
    pub token: String,
    pub event_config: Option<EventConfig>,
    pub base_denom: String,
    pub tokens_released: bool,
    pub reserve: String,
    pub slot_duration: u64,
}

/// What a depositor has.
#[derive(Clone, Copy, Debug, PartialEq, Eq, Structural)]
pub struct DepositInfo {
    pub amount: u128,
    pub withdrew_stage2: bool,
    pub tokens_claimed: bool,
}

/// What the sale answers about a depositor.
#[derive(Clone, Copy, Debug, PartialEq, Eq, Structural)]
pub struct InfoResponse {
    pub deposit: u128,
    pub total_deposit: u128,
    pub withdrawable_amount: u128,
    pub tokens_to_claim: u128,
    pub clamable: bool,
}

/// Why an event configuration is refused.
#[derive(Clone, Copy, Debug, PartialEq, Eq, Structural)]
pub enum EventConfigProblem {
    /// The first stage begins before now, given
    Stage1InPast(u64),
    /// The second stage begins before the first
    Stage2BeforeStage1,
    /// The second stage ends before it begins
    Stage2EndBeforeBegin,
    /// The second stage is shorter than one slot, given
    Stage2TooShort(u64),
}

/// Why a deposit is refused.
#[derive(Clone, Copy, Debug, PartialEq, Eq, Structural)]
pub enum DepositProblem {
    /// The deposit period has not started: now and its start
    NotStarted(u64, u64),
    Finished,
    NotOneCoin,
    NotPositive,
}

/// Why a withdrawal is refused.
#[derive(Clone, Copy, Debug, PartialEq, Eq, Structural)]
pub enum WithdrawProblem {
    PeriodOver,
    NothingToWithdraw,
    AlreadyWithdrewStage2,
    /// More than the amount given may not be withdrawn now
    ExceedsWithdrawable(u128),
    ZeroAmount,
}

/// Why a withdrawal of the sold tokens is refused.
#[derive(Clone, Copy, Debug, PartialEq, Eq, Structural)]
pub enum WithdrawTokensProblem {
    NotYet,
    DepositNotFound,
    AlreadyClaimed,
    NoneAvailable,
}

/// The errors of the token sale.
#[derive(Clone, Copy, Debug, PartialEq, Eq, Structural)]
pub enum TokenSaleError {
    Unauthorized,
    DuplicatePostInit,
    InvalidEventConfig(EventConfigProblem),
    EmptyEventConfig,
    DepositError(DepositProblem),
    WithdrawError(WithdrawProblem),
    WithdrawTokensError(WithdrawTokensProblem),
    /// The reserve may not be withdrawn yet
    InvalidReserveWithdraw,
}

/// Creates the sale; the slot length is an hour unless given.
pub fn instantiate(
    owner: String,
    reserve: String,
    token: String,
    base_denom: String,
    slot_duration: Option<u64>,
) -> (r: (SaleConfig, u128))
    ensures
        r.0.owner == owner,
        r.0.reserve == reserve,
        r.0.token == token,
        r.0.base_denom == base_denom,
        r.0.event_config is None,
        !r.0.tokens_released,
        r.0.slot_duration == (match slot_duration {
            Some(d) => d,
            None => DEFAULT_SLOT_DURATION,
        }),
        r.1 == 0,
{
    let slot = match slot_duration {
        Some(d) => d,
        None => DEFAULT_SLOT_DURATION,
    };
    (
        SaleConfig {
            owner,
            token,
            event_config: None,
            base_denom,
            tokens_released: false,
            reserve,
            slot_duration: slot,
        },
        0,
    )
}

/// The share of a deposit that may be withdrawn at `time` in the second
/// stage, in atomic units: the slots left, counting the current one, over
/// all the stage's slots, at most all of it.
pub open spec fn withdrawable_portion(slot_duration: u64, ev: EventConfig, time: u64) -> int {
    let current_slot = (ev.stage2_end - time) / (slot_duration as int);
    let total_slots = (ev.stage2_end - ev.stage2_begin) / (slot_duration as int);
    let portion = ((current_slot + 1) * decimal_fractional()) / total_slots;
    if portion <= decimal_fractional() {
        portion
    } else {
        decimal_fractional()
    }
}

/// The share of a deposit that may be withdrawn at `time`, as a decimal.
pub fn portion_at(slot_duration: u64, ev: &EventConfig, time: u64) -> (r: Dec)
    requires
        slot_duration != 0,
        ev.stage2_begin < time < ev.stage2_end,
        ev.stage2_end - ev.stage2_begin >= slot_duration,
    ensures
        r.atomics == withdrawable_portion(slot_duration, *ev, time),
        r.atomics <= decimal_fractional(),
{
    let current_slot = (ev.stage2_end - time) / slot_duration;
    let total_slots = (ev.stage2_end - ev.stage2_begin) / slot_duration;
    proof {
        vstd::arithmetic::div_mod::lemma_div_is_ordered(
            slot_duration as int,
            (ev.stage2_end - ev.stage2_begin) as int,
            slot_duration as int,
        );
        vstd::arithmetic::div_mod::lemma_div_basics(slot_duration as int);
        vstd::arithmetic::div_mod::lemma_div_is_ordered_by_denominator(
            (ev.stage2_end - time) as int,
            1,
            slot_duration as int,
        );
        vstd::arithmetic::div_mod::lemma_div_basics((ev.stage2_end - time) as int);
        let n = (current_slot + 1) as int;
        assert(n * decimal_fractional() <= 0x1_0000_0000_0000_0000 * decimal_fractional()) by (nonlinear_arith)
            requires
                n <= 0x1_0000_0000_0000_0000,
        ;
        vstd::arithmetic::div_mod::lemma_div_is_ordered_by_denominator(
            n * decimal_fractional(),
            1,
            total_slots as int,
        );
        vstd::arithmetic::div_mod::lemma_div_basics(n * decimal_fractional());
    }
    let portion = match Dec::from_ratio((current_slot + 1) as u128, total_slots as u128) {
        Some(d) => d,
        None => {
            proof {
                assert(false);
            }
            Dec::zero()
        },
    };
    portion.min(Dec::one())
}

/// `amount` times a share of at most one, floored.
pub open spec fn share_of(amount: u128, portion: int) -> int {
    (amount * portion) / decimal_fractional()
}

/// `amount * portion` for a share of at most one (`Uint128 * Decimal`).
pub fn apply_portion(amount: u128, portion: Dec) -> (r: u128)
    requires
        portion.atomics <= decimal_fractional(),
    ensures
        r == share_of(amount, portion.atomics as int),
        r <= amount,
{
    proof {
        crate::numeric::lemma_scaled_fraction_bounds(portion.atomics as int, amount as int, decimal_fractional());
        assert(amount * portion.atomics == portion.atomics * amount) by (nonlinear_arith);
    }
    if amount == 0 || portion.atomics == 0 {
        proof {
            assert(amount * portion.atomics == 0) by (nonlinear_arith)
                requires
                    amount == 0 || portion.atomics == 0,
            ;
        }
        return 0;
    }
    match u128_checked_multiply_ratio(amount, portion.atomics, DECIMAL_FRACTIONAL) {
        Some(v) => v,
        None => {
            proof {
                assert(false);
            }
            0
        },
    }
}

/// The amount a deposit may withdraw at `time`: all of it before the second
/// stage; in the second stage, nothing after the one withdrawal, else the
/// shrinking share of it; nothing once the sale ended.
pub open spec fn withdrawable_amount(slot_duration: u64, ev: EventConfig, time: u64, info: DepositInfo) -> int {
    if time > ev.stage2_begin && info.amount != 0 {
        if info.withdrew_stage2 || time >= ev.stage2_end {
            0
        } else {
            share_of(info.amount, withdrawable_portion(slot_duration, ev, time))
        }
    } else {
        info.amount as int
    }
}

/// The sold tokens a deposit earns: its share of all deposits.
pub open spec fn tokens_share(ev_amount: u128, deposit: u128, total: u128) -> int {
    (ev_amount * deposit) / (total as int)
}

/// The stages are ordered and the second lasts at least one slot.
pub open spec fn event_valid(slot_duration: u64, ev: EventConfig) -> bool {
    ev.stage1_begin <= ev.stage2_begin && ev.stage2_begin <= ev.stage2_end && ev.stage2_end
        - ev.stage2_begin >= slot_duration
}

/// What the sale answers about a depositor at `time`: the deposit, all
/// deposits, what may be withdrawn, and the sold tokens it earns and
/// whether they may be claimed.
pub fn query_info(config: &SaleConfig, time: u64, info: DepositInfo, total_deposit: u128) -> (r:
    Result<InfoResponse, TokenSaleError>)
    requires
        config.slot_duration != 0,
        config.event_config matches Some(ev) ==> event_valid(config.slot_duration, ev),
        (config.event_config is Some && total_deposit != 0) ==> tokens_share(
            config.event_config.unwrap().amount,
            info.amount,
            total_deposit,
        ) <= u128::MAX,
    ensures
        config.event_config is None ==> r == Err::<InfoResponse, TokenSaleError>(
            TokenSaleError::EmptyEventConfig,
        ),
        config.event_config matches Some(ev) ==> ({
            let tokens = if total_deposit != 0 {
                tokens_share(ev.amount, info.amount, total_deposit)
            } else {
                0
            };
            r == Ok::<InfoResponse, TokenSaleError>(
                InfoResponse {
                    deposit: info.amount,
                    total_deposit,
                    withdrawable_amount: withdrawable_amount(config.slot_duration, ev, time, info) as u128,
                    tokens_to_claim: tokens as u128,
                    clamable: time >= ev.stage2_end && tokens != 0 && !info.tokens_claimed,
                },
            )
        }),
{
    let ev = match config.event_config {
        Some(ev) => ev,
        None => {
            return Err(TokenSaleError::EmptyEventConfig);
        },
    };
    let withdrawable = if time > ev.stage2_begin && info.amount != 0 {
        if info.withdrew_stage2 || time >= ev.stage2_end {
            0
        } else {
            let portion = portion_at(config.slot_duration, &ev, time);
            apply_portion(info.amount, portion)
        }
    } else {
        info.amount
    };
    let tokens_to_claim = if total_deposit != 0 {
        match u128_checked_multiply_ratio(ev.amount, info.amount, total_deposit) {
            Some(v) => v,
            None => {
                proof {
                    assert(false);
                }
                0
            },
        }
    } else {
        0
    };
    let clamable = time >= ev.stage2_end && tokens_to_claim != 0 && !info.tokens_claimed;
    Ok(InfoResponse {
        deposit: info.amount,
        total_deposit,
        withdrawable_amount: withdrawable,
        tokens_to_claim,
        clamable,
    })
}

/// The owner may withdraw the sale's base denomination to the reserve once
/// the sale ended.
pub fn execute_withdraw_reserve(config: &SaleConfig, sender: &String, now: u64) -> (r: Result<
    (),
    TokenSaleError,
>)
    ensures
        config.event_config is None ==> r == Err::<(), TokenSaleError>(TokenSaleError::EmptyEventConfig),
        (config.event_config is Some && sender@ != config.owner@) ==> r == Err::<(), TokenSaleError>(
            TokenSaleError::Unauthorized,
        ),
        (config.event_config is Some && sender@ == config.owner@ && now
            < config.event_config.unwrap().stage2_end) ==> r == Err::<(), TokenSaleError>(
            TokenSaleError::InvalidReserveWithdraw,
        ),
        (config.event_config is Some && sender@ == config.owner@ && now
            >= config.event_config.unwrap().stage2_end) ==> r == Ok::<(), TokenSaleError>(()),
{
    let ev = match config.event_config {
        Some(ev) => ev,
        None => {
            return Err(TokenSaleError::EmptyEventConfig);
        },
    };
    if !sender.eq(&config.owner) {
        return Err(TokenSaleError::Unauthorized);
    }
    if now < ev.stage2_end {
        return Err(TokenSaleError::InvalidReserveWithdraw);
    }
    Ok(())
}

/// The error, if any, that a deposit of `funds` at `now` reports.
pub open spec fn deposit_error(config: SaleConfig, now: u64, funds: Seq<Coin>) -> Option<
    TokenSaleError,
> {
    let ev = config.event_config.unwrap();
    if now < ev.stage1_begin {
        Some(TokenSaleError::DepositError(DepositProblem::NotStarted(now, ev.stage1_begin)))
    } else if now >= ev.stage2_begin {
        Some(TokenSaleError::DepositError(DepositProblem::Finished))
    } else if funds.len() != 1 {
        Some(TokenSaleError::DepositError(DepositProblem::NotOneCoin))
    } else if funds[0].denom@ != config.base_denom@ || funds[0].amount == 0 {
        Some(TokenSaleError::DepositError(DepositProblem::NotPositive))
    } else {
        None
    }
}

/// A deposit during the first stage: exactly one positive coin of the base
/// denomination, added to the depositor's deposit and to all deposits.
/// Returns the deposit, the new total and the amount.
pub fn execute_deposit(
    config: &SaleConfig,
    now: u64,
    funds: &Vec<Coin>,
    info: DepositInfo,
    total_deposit: u128,
) -> (r: Result<(DepositInfo, u128, u128), TokenSaleError>)
    requires
        config.event_config is Some,
        deposit_error(*config, now, funds@) is None ==> (info.amount + funds@[0].amount <= u128::MAX
            && total_deposit + funds@[0].amount <= u128::MAX),
    ensures
        deposit_error(*config, now, funds@) matches Some(e) ==> r == Err::<
            (DepositInfo, u128, u128),
            TokenSaleError,
        >(e),
        deposit_error(*config, now, funds@) is None ==> r == Ok::<
            (DepositInfo, u128, u128),
            TokenSaleError,
        >(
            (
                DepositInfo { amount: (info.amount + funds@[0].amount) as u128, ..info },
                (total_deposit + funds@[0].amount) as u128,
                funds@[0].amount,
            ),
        ),
{
    let ev = match config.event_config {
        Some(ev) => ev,
        None => {
            return Err(TokenSaleError::EmptyEventConfig);
        },
    };
    if now < ev.stage1_begin {
        return Err(TokenSaleError::DepositError(DepositProblem::NotStarted(now, ev.stage1_begin)));
    }
    if now >= ev.stage2_begin {
        return Err(TokenSaleError::DepositError(DepositProblem::Finished));
    }
    if funds.len() != 1 {
        return Err(TokenSaleError::DepositError(DepositProblem::NotOneCoin));
    }
    let coin = &funds[0];
    if !coin.denom.eq(&config.base_denom) || coin.amount == 0 {
        return Err(TokenSaleError::DepositError(DepositProblem::NotPositive));
    }
    let mut info = info;
    info.amount = info.amount + coin.amount;
    Ok((info, total_deposit + coin.amount, coin.amount))
}

/// The error, if any, that a withdrawal at `now` reports, and otherwise the
/// amount withdrawn.
pub open spec fn withdraw_outcome(
    slot_duration: u64,
    ev: EventConfig,
    now: u64,
    info: DepositInfo,
    amount: Option<u128>,
) -> Result<u128, TokenSaleError> {
    if now >= ev.stage2_end {
        Err(TokenSaleError::WithdrawError(WithdrawProblem::PeriodOver))
    } else if info.amount == 0 {
        Err(TokenSaleError::WithdrawError(WithdrawProblem::NothingToWithdraw))
    } else if now > ev.stage2_begin && info.withdrew_stage2 {
        Err(TokenSaleError::WithdrawError(WithdrawProblem::AlreadyWithdrewStage2))
    } else {
        let withdrawable = withdrawable_amount(slot_duration, ev, now, info);
        match amount {
            None => Ok(withdrawable as u128),
            Some(requested) => if requested > withdrawable {
                Err(TokenSaleError::WithdrawError(WithdrawProblem::ExceedsWithdrawable(withdrawable as u128)))
            } else if requested == 0 {
                Err(TokenSaleError::WithdrawError(WithdrawProblem::ZeroAmount))
            } else {
                Ok(requested)
            },
        }
    }
}

/// A withdrawal before the sale ends: any part of the deposit during the
/// first stage; once during the second, at most its shrinking share. All of
/// what may be withdrawn where no amount is given. Returns the deposit, the
/// new total and the amount withdrawn.
pub fn execute_withdraw(
    config: &SaleConfig,
    now: u64,
    info: DepositInfo,
    total_deposit: u128,
    amount: Option<u128>,
) -> (r: Result<(DepositInfo, u128, u128), TokenSaleError>)
    requires
        config.slot_duration != 0,
        config.event_config matches Some(ev) && event_valid(config.slot_duration, ev),
        info.amount <= total_deposit,
    ensures
        ({
            let ev = config.event_config.unwrap();
            let out = withdraw_outcome(config.slot_duration, ev, now, info, amount);
            &&& out matches Err(e) ==> r == Err::<(DepositInfo, u128, u128), TokenSaleError>(e)
            &&& out matches Ok(w) ==> r == Ok::<(DepositInfo, u128, u128), TokenSaleError>(
                (
                    DepositInfo {
                        amount: (info.amount - w) as u128,
                        withdrew_stage2: info.withdrew_stage2 || now > ev.stage2_begin,
                        tokens_claimed: info.tokens_claimed,
                    },
                    (total_deposit - w) as u128,
                    w,
                ),
            )
        }),
{
    let ev = match config.event_config {
        Some(ev) => ev,
        None => {
            return Err(TokenSaleError::EmptyEventConfig);
        },
    };
    if now >= ev.stage2_end {
        return Err(TokenSaleError::WithdrawError(WithdrawProblem::PeriodOver));
    }
    if info.amount == 0 {
        return Err(TokenSaleError::WithdrawError(WithdrawProblem::NothingToWithdraw));
    }
    let mut info = info;
    let withdrawable = if now > ev.stage2_begin {
        if info.withdrew_stage2 {
            return Err(TokenSaleError::WithdrawError(WithdrawProblem::AlreadyWithdrewStage2));
        }
        let portion = portion_at(config.slot_duration, &ev, now);
        info.withdrew_stage2 = true;
        apply_portion(info.amount, portion)
    } else {
        info.amount
    };
    let withdraw_amount = match amount {
        None => withdrawable,
        Some(requested) => {
            if requested > withdrawable {
                return Err(TokenSaleError::WithdrawError(WithdrawProblem::ExceedsWithdrawable(withdrawable)));
            }
            if requested == 0 {
                return Err(TokenSaleError::WithdrawError(WithdrawProblem::ZeroAmount));
            }
            requested
        },
    };
    info.amount = info.amount - withdraw_amount;
    Ok((info, total_deposit - withdraw_amount, withdraw_amount))
}

/// Claiming the sold tokens once the sale ended: once per deposit, its share
/// of the tokens, when that is positive. Returns the deposit and the amount.
pub fn execute_withdraw_tokens(
    config: &SaleConfig,
    now: u64,
    info: Option<DepositInfo>,
    total_deposit: u128,
) -> (r: Result<(DepositInfo, u128), TokenSaleError>)
    requires
        config.event_config is Some,
        (now >= config.event_config.unwrap().stage2_end && info is Some && !info.unwrap().tokens_claimed)
            ==> (total_deposit != 0 && tokens_share(config.event_config.unwrap().amount, info.unwrap().amount, total_deposit) <= u128::MAX),
    ensures
        ({
            let ev = config.event_config.unwrap();
            &&& now < ev.stage2_end ==> r == Err::<(DepositInfo, u128), TokenSaleError>(
                TokenSaleError::WithdrawTokensError(WithdrawTokensProblem::NotYet),
            )
            &&& (now >= ev.stage2_end && info is None) ==> r == Err::<(DepositInfo, u128), TokenSaleError>(
                TokenSaleError::WithdrawTokensError(WithdrawTokensProblem::DepositNotFound),
            )
            &&& (now >= ev.stage2_end && info is Some && info.unwrap().tokens_claimed) ==> r == Err::<(DepositInfo, u128), TokenSaleError>(
                TokenSaleError::WithdrawTokensError(WithdrawTokensProblem::AlreadyClaimed),
            )
            &&& (now >= ev.stage2_end && info is Some && !info.unwrap().tokens_claimed) ==> ({
                let i = info.unwrap();
                let t = tokens_share(ev.amount, i.amount, total_deposit);
                &&& t == 0 ==> r == Err::<(DepositInfo, u128), TokenSaleError>(
                    TokenSaleError::WithdrawTokensError(WithdrawTokensProblem::NoneAvailable),
                )
                &&& t != 0 ==> r == Ok::<(DepositInfo, u128), TokenSaleError>(
                    (DepositInfo { tokens_claimed: true, ..i }, t as u128),
                )
            })
        }),
{
    let ev = match config.event_config {
        Some(ev) => ev,
        None => {
            return Err(TokenSaleError::EmptyEventConfig);
        },
    };
    if now < ev.stage2_end {
        return Err(TokenSaleError::WithdrawTokensError(WithdrawTokensProblem::NotYet));
    }
    let mut info = match info {
        Some(i) => i,
        None => {
            return Err(TokenSaleError::WithdrawTokensError(WithdrawTokensProblem::DepositNotFound));
        },
    };
    if info.tokens_claimed {
        return Err(TokenSaleError::WithdrawTokensError(WithdrawTokensProblem::AlreadyClaimed));
    }
    let amount = match u128_checked_multiply_ratio(ev.amount, info.amount, total_deposit) {
        Some(v) => v,
        None => {
            proof {
                assert(false);
            }
            0
        },
    };
    if amount == 0 {
        return Err(TokenSaleError::WithdrawTokensError(WithdrawTokensProblem::NoneAvailable));
    }
    info.tokens_claimed = true;
    Ok((info, amount))
}

/// The owner sets up the sale's stages, once: the first stage begins no
/// earlier than now, the stages are ordered and the second lasts at least a
/// slot. The tokens on sale are then transferred to the sale.
pub fn execute_setup_event(config: SaleConfig, sender: &String, now: u64, ev: EventConfig) -> (r:
    Result<SaleConfig, TokenSaleError>)
    ensures
        sender@ != config.owner@ ==> r is Err && r->Err_0 == TokenSaleError::Unauthorized,
        (sender@ == config.owner@ && config.event_config is Some) ==> r is Err && r->Err_0
            == TokenSaleError::DuplicatePostInit,
        (sender@ == config.owner@ && config.event_config is None && now > ev.stage1_begin) ==> r is Err
            && r->Err_0 == TokenSaleError::InvalidEventConfig(EventConfigProblem::Stage1InPast(now)),
        (sender@ == config.owner@ && config.event_config is None && now <= ev.stage1_begin
            && ev.stage1_begin > ev.stage2_begin) ==> r is Err && r->Err_0
            == TokenSaleError::InvalidEventConfig(EventConfigProblem::Stage2BeforeStage1),
        (sender@ == config.owner@ && config.event_config is None && now <= ev.stage1_begin
            && ev.stage1_begin <= ev.stage2_begin && ev.stage2_begin > ev.stage2_end) ==> r is Err
            && r->Err_0 == TokenSaleError::InvalidEventConfig(EventConfigProblem::Stage2EndBeforeBegin),
        (sender@ == config.owner@ && config.event_config is None && now <= ev.stage1_begin
            && ev.stage1_begin <= ev.stage2_begin && ev.stage2_begin <= ev.stage2_end
            && ev.stage2_end - ev.stage2_begin < config.slot_duration) ==> r is Err && r->Err_0
            == TokenSaleError::InvalidEventConfig(EventConfigProblem::Stage2TooShort(config.slot_duration)),
        r is Ok <==> (sender@ == config.owner@ && config.event_config is None && now <= ev.stage1_begin
            && event_valid(config.slot_duration, ev)),
        r matches Ok(c) ==> c.event_config == Some(ev) && c.owner == config.owner && c.token
            == config.token && c.base_denom == config.base_denom && c.reserve == config.reserve
            && c.slot_duration == config.slot_duration && c.tokens_released == config.tokens_released,
{
    if !sender.eq(&config.owner) {
        return Err(TokenSaleError::Unauthorized);
    }
    if config.event_config.is_some() {
        return Err(TokenSaleError::DuplicatePostInit);
    }
    if now > ev.stage1_begin {
        return Err(TokenSaleError::InvalidEventConfig(EventConfigProblem::Stage1InPast(now)));
    }
    if ev.stage1_begin > ev.stage2_begin {
        return Err(TokenSaleError::InvalidEventConfig(EventConfigProblem::Stage2BeforeStage1));
    }
    if ev.stage2_begin > ev.stage2_end {
        return Err(TokenSaleError::InvalidEventConfig(EventConfigProblem::Stage2EndBeforeBegin));
    }
    if ev.stage2_end - ev.stage2_begin < config.slot_duration {
        return Err(TokenSaleError::InvalidEventConfig(EventConfigProblem::Stage2TooShort(config.slot_duration)));
    }
    let mut config = config;
    config.event_config = Some(ev);
    Ok(config)
}

} // verus!

verus! {

/// What may be withdrawn never exceeds the deposit.
pub proof fn law_withdrawable_within_deposit(slot_duration: u64, ev: EventConfig, time: u64, info: DepositInfo)
    requires
        slot_duration != 0,
        event_valid(slot_duration, ev),
    ensures
        0 <= withdrawable_amount(slot_duration, ev, time, info) <= info.amount,
{
    if time > ev.stage2_begin && info.amount != 0 && !info.withdrew_stage2 && time < ev.stage2_end {
        let p = withdrawable_portion(slot_duration, ev, time);
        let current_slot = (ev.stage2_end - time) / (slot_duration as int);
        let total_slots = (ev.stage2_end - ev.stage2_begin) / (slot_duration as int);
        vstd::arithmetic::div_mod::lemma_div_is_ordered(
            slot_duration as int,
            (ev.stage2_end - ev.stage2_begin) as int,
            slot_duration as int,
        );
        vstd::arithmetic::div_mod::lemma_div_basics(slot_duration as int);
        vstd::arithmetic::div_mod::lemma_div_pos_is_pos((ev.stage2_end - time) as int, slot_duration as int);
        assert((current_slot + 1) * decimal_fractional() >= 0) by (nonlinear_arith)
            requires
                current_slot >= 0,
        ;
        vstd::arithmetic::div_mod::lemma_div_pos_is_pos((current_slot + 1) * decimal_fractional(), total_slots);
        crate::numeric::lemma_scaled_fraction_bounds(p, info.amount as int, decimal_fractional());
        assert(info.amount * p == p * info.amount) by (nonlinear_arith);
    }
}

/// The share that may be withdrawn in the second stage never grows as time
/// passes.
pub proof fn law_portion_non_increasing(slot_duration: u64, ev: EventConfig, t1: u64, t2: u64)
    requires
        slot_duration != 0,
        event_valid(slot_duration, ev),
        ev.stage2_begin < t1 <= t2 < ev.stage2_end,
    ensures
        withdrawable_portion(slot_duration, ev, t2) <= withdrawable_portion(slot_duration, ev, t1),
{
    let s = slot_duration as int;
    let c1 = (ev.stage2_end - t1) / s;
    let c2 = (ev.stage2_end - t2) / s;
    let total_slots = (ev.stage2_end - ev.stage2_begin) / s;
    vstd::arithmetic::div_mod::lemma_div_is_ordered((ev.stage2_end - t2) as int, (ev.stage2_end - t1) as int, s);
    vstd::arithmetic::div_mod::lemma_div_is_ordered(s, (ev.stage2_end - ev.stage2_begin) as int, s);
    vstd::arithmetic::div_mod::lemma_div_basics(s);
    vstd::arithmetic::div_mod::lemma_div_pos_is_pos((ev.stage2_end - t2) as int, s);
    assert((c2 + 1) * decimal_fractional() <= (c1 + 1) * decimal_fractional()) by (nonlinear_arith)
        requires
            0 <= c2 <= c1,
    ;
    vstd::arithmetic::div_mod::lemma_div_is_ordered(
        (c2 + 1) * decimal_fractional(),
        (c1 + 1) * decimal_fractional(),
        total_slots,
    );
}

/// After the one withdrawal of the second stage, every later request for a
/// positive amount before the end is refused as a repeat.
pub proof fn law_single_stage2_withdrawal(
    slot_duration: u64,
    ev: EventConfig,
    now: u64,
    info: DepositInfo,
    amount: Option<u128>,
)
    requires
        info.withdrew_stage2,
        info.amount != 0,
        ev.stage2_begin < now < ev.stage2_end,
    ensures
        withdraw_outcome(slot_duration, ev, now, info, amount) == Err::<u128, TokenSaleError>(
            TokenSaleError::WithdrawError(WithdrawProblem::AlreadyWithdrewStage2),
        ),
{
}

/// During the first stage, withdrawing a whole deposit right after making it
/// brings the deposit and the total back to what they were.
pub proof fn law_withdraw_undoes_deposit(
    slot_duration: u64,
    ev: EventConfig,
    now: u64,
    info: DepositInfo,
    total_deposit: u128,
    amount: u128,
)
    requires
        ev.stage1_begin <= now <= ev.stage2_begin,
        now < ev.stage2_end,
        amount != 0,
        info.amount + amount <= u128::MAX,
    ensures
        ({
            let deposited = DepositInfo { amount: (info.amount + amount) as u128, ..info };
            withdraw_outcome(slot_duration, ev, now, deposited, Some(amount)) == Ok::<u128, TokenSaleError>(amount)
                && deposited.amount - amount == info.amount && (total_deposit + amount) - amount
                == total_deposit
        }),
{
}

/// A deposit within all deposits earns at most all the tokens on sale.
pub proof fn law_tokens_within_sale(ev_amount: u128, deposit: u128, total: u128)
    requires
        deposit <= total,
        total != 0,
    ensures
        0 <= tokens_share(ev_amount, deposit, total) <= ev_amount,
{
    crate::numeric::lemma_scaled_fraction_bounds(deposit as int, ev_amount as int, total as int);
    assert(ev_amount * deposit == deposit * ev_amount) by (nonlinear_arith);
}

/// Deposits, added up.
pub open spec fn deposits_sum(ds: Seq<u128>) -> int
    decreases ds.len(),
{
    if ds.len() == 0 {
        0
    } else {
        deposits_sum(ds.drop_last()) + ds.last()
    }
}

/// The tokens that deposits `ds` earn out of `ev_amount`, added up.
pub open spec fn token_shares_sum(ev_amount: u128, ds: Seq<u128>, total: u128) -> int
    decreases ds.len(),
{
    if ds.len() == 0 {
        0
    } else {
        token_shares_sum(ev_amount, ds.drop_last(), total) + tokens_share(ev_amount, ds.last(), total)
    }
}

proof fn lemma_token_shares_weighted(ev_amount: u128, ds: Seq<u128>, total: u128)
    requires
        total != 0,
    ensures
        0 <= token_shares_sum(ev_amount, ds, total),
        token_shares_sum(ev_amount, ds, total) * total <= ev_amount * deposits_sum(ds),
    decreases ds.len(),
{
    if ds.len() > 0 {
        let prev = ds.drop_last();
        lemma_token_shares_weighted(ev_amount, prev, total);
        let d = ds.last();
        let n = ev_amount * d;
        let q = tokens_share(ev_amount, d, total);
        vstd::arithmetic::div_mod::lemma_fundamental_div_mod(n, total as int);
        vstd::arithmetic::div_mod::lemma_mod_bound(n, total as int);
        assert(q * total <= n && q >= 0) by (nonlinear_arith)
            requires
                n == total * q + n % (total as int),
                0 <= n % (total as int) < total,
                n >= 0,
                total > 0,
        ;
        let a = token_shares_sum(ev_amount, prev, total);
        assert((a + q) * total <= ev_amount * (deposits_sum(prev) + d)) by (nonlinear_arith)
            requires
                a * total <= ev_amount * deposits_sum(prev),
                q * total <= ev_amount * d,
        ;
    }
}

/// The sale never gives out more tokens than it sells: deposits that add up
/// to at most all deposits earn, together, at most the tokens on sale.
pub proof fn law_all_tokens_within_sale(ev_amount: u128, ds: Seq<u128>, total: u128)
    requires
        deposits_sum(ds) <= total,
        total != 0,
    ensures
        0 <= token_shares_sum(ev_amount, ds, total) <= ev_amount,
{
    lemma_token_shares_weighted(ev_amount, ds, total);
    let s = token_shares_sum(ev_amount, ds, total);
    assert(s <= ev_amount) by (nonlinear_arith)
        requires
            s * total <= ev_amount * deposits_sum(ds),
            deposits_sum(ds) <= total,
            total > 0,
            ev_amount >= 0,
    ;
}

} // verus!
