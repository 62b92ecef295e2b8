//! The USDC converter: liquidity of the USDC.axl<>NTRN pool is withdrawn,
//! its USDC.axl swapped for Noble USDC, and both legs provided to the Noble
//! USDC<>NTRN pool on the caller's behalf. Each step measures what the
//! previous one brought by the contract's balances before and after.
use vstd::prelude::*;

verus! {

/// The converter's errors.
#[derive(Clone, Copy, Debug, PartialEq, Eq, Structural)]
pub enum ConverterError {
    /// Only LP tokens of the USDC.axl<>NTRN pool are converted
    UnsupportedToken,
    /// A callback came from outside the contract
    ExternalCallback,
    /// A balance fell where it had to grow
    Overflow,
}

/// Only LP tokens of the USDC.axl<>NTRN pool are accepted for conversion.
pub fn check_received_token(sender: &String, liquidity_token: &String) -> (r: Result<(), ConverterError>)
    ensures
        r is Ok <==> sender@ == liquidity_token@,
        r matches Err(e) ==> e == ConverterError::UnsupportedToken,
{
    if sender.eq(liquidity_token) {
        Ok(())
    } else {
        Err(ConverterError::UnsupportedToken)
    }
}

/// Only the contract itself may invoke its callbacks.
pub fn check_callback_sender(sender: &String, contract: &String) -> (r: Result<(), ConverterError>)
    ensures
        r is Ok <==> sender@ == contract@,
        r matches Err(e) ==> e == ConverterError::ExternalCallback,
{
    if sender.eq(contract) {
        Ok(())
    } else {
        Err(ConverterError::ExternalCallback)
    }
}

/// What the withdrawal of liquidity brought: the NTRN, then the USDC.axl, as
/// the growth of the contract's balances; USDC.axl is swapped next, NTRN
/// provided at the end.
pub fn handle_swap_callback(
    ntrn_prev_balance: u128,
    ntrn_balance: u128,
    axl_usdc_prev_balance: u128,
    axl_usdc_balance: u128,
) -> (r: Result<(u128, u128), ConverterError>)
    ensures
        (ntrn_balance < ntrn_prev_balance || axl_usdc_balance < axl_usdc_prev_balance) ==> r
            == Err::<(u128, u128), ConverterError>(ConverterError::Overflow),
        (ntrn_balance >= ntrn_prev_balance && axl_usdc_balance >= axl_usdc_prev_balance) ==> r
            == Ok::<(u128, u128), ConverterError>(
            ((ntrn_balance - ntrn_prev_balance) as u128, (axl_usdc_balance - axl_usdc_prev_balance) as u128),
        ),
{
    let ntrn = match ntrn_balance.checked_sub(ntrn_prev_balance) {
        Some(v) => v,
        None => {
            return Err(ConverterError::Overflow);
        },
    };
    let axl = match axl_usdc_balance.checked_sub(axl_usdc_prev_balance) {
        Some(v) => v,
        None => {
            return Err(ConverterError::Overflow);
        },
    };
    Ok((ntrn, axl))
}

/// What the swap brought in Noble USDC, as the growth of the contract's
/// balance; it is provided with the NTRN to the Noble pool.
pub fn handle_stake_callback(noble_usdc_prev_balance: u128, noble_usdc_balance: u128) -> (r: Result<
    u128,
    ConverterError,
>)
    ensures
        noble_usdc_balance < noble_usdc_prev_balance ==> r == Err::<u128, ConverterError>(
            ConverterError::Overflow,
        ),
        noble_usdc_balance >= noble_usdc_prev_balance ==> r == Ok::<u128, ConverterError>(
            (noble_usdc_balance - noble_usdc_prev_balance) as u128,
        ),
{
    match noble_usdc_balance.checked_sub(noble_usdc_prev_balance) {
        Some(v) => Ok(v),
        None => Err(ConverterError::Overflow),
    }
}

} // verus!
