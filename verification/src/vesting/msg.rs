//! The extension messages of a vesting contract and their routing: each
//! extension's messages are handled only where it is enabled.
use crate::vesting::admin::{
    add_managers_fold, add_vesting_managers, address_set, check_extension, extension_enabled,
    query_total_unclaimed_amount_at_height, query_unclaimed_amount_at_height,
    remove_managers_fold, remove_vesting_managers, views,
};
use crate::vesting::accounts::{clawbacks_model, remove_vesting_accounts, removal_fold, RemovalOutcome};
use crate::vesting::schedule::granted_sum;
use crate::vesting::types::{Extension, Extensions, VestingError, VestingInfo, VestingState};
use vstd::prelude::*;

verus! {

/// The execute messages available in a managed vesting contract.
#[derive(Clone, Debug, PartialEq, Eq)]
pub enum ExecuteMsgManaged {
    /// Removes vesting targets/accounts; only the owner may. The funds taken
    /// go to the clawback account.
    RemoveVestingAccounts { vesting_accounts: Vec<String>, clawback_account: String },
}

/// The execute messages available in a with_managers vesting contract.
#[derive(Clone, Debug, PartialEq, Eq)]
pub enum ExecuteMsgWithManagers {
    /// Adds vesting managers; only the owner may
    AddVestingManagers { managers: Vec<String> },
    /// Removes vesting managers; only the owner may
    RemoveVestingManagers { managers: Vec<String> },
}

/// The query messages available in a with_managers vesting contract.
#[derive(Clone, Debug, PartialEq, Eq)]
pub enum QueryMsgWithManagers {
    /// The vesting managers: the accounts that may register vesting schedules
    VestingManagers {},
}

/// The query messages available in a historical vesting contract.
#[derive(Clone, Debug, PartialEq, Eq)]
pub enum QueryMsgHistorical {
    /// The unclaimed amount of an address at a height
    UnclaimedAmountAtHeight { address: String, height: u64 },
    /// The unclaimed amount of all accounts at a height
    UnclaimedTotalAmountAtHeight { height: u64 },
}

/// Routes a with_managers message, where that extension is enabled: the
/// managers are added or removed. Returns the managers after and those
/// added or removed, in order.
pub fn handle_execute_with_managers_msg(
    extensions: Extensions,
    sender: &String,
    owner: &String,
    current: Vec<String>,
    msg: &ExecuteMsgWithManagers,
) -> (r: Result<(Vec<String>, Vec<String>), VestingError>)
    ensures
        !extensions.with_managers ==> r == Err::<(Vec<String>, Vec<String>), VestingError>(
            VestingError::ExtensionNotEnabled(Extension::WithManagers),
        ),
        (extensions.with_managers && sender@ != owner@) ==> r == Err::<
            (Vec<String>, Vec<String>),
            VestingError,
        >(VestingError::Unauthorized),
        (extensions.with_managers && sender@ == owner@) ==> (r is Ok && ({
            let o = r.unwrap();
            match msg {
                ExecuteMsgWithManagers::AddVestingManagers { managers } => {
                    let f = add_managers_fold(address_set(current@), managers@, managers@.len());
                    address_set(o.0@) == f.0 && views(o.1@) == f.1
                },
                ExecuteMsgWithManagers::RemoveVestingManagers { managers } => {
                    let f = remove_managers_fold(address_set(current@), managers@, managers@.len());
                    address_set(o.0@) == f.0 && views(o.1@) == f.1
                },
            }
        })),
{
    match check_extension(extensions, Extension::WithManagers) {
        Ok(()) => {},
        Err(e) => {
            return Err(e);
        },
    }
    match msg {
        ExecuteMsgWithManagers::AddVestingManagers { managers } => add_vesting_managers(
            sender,
            owner,
            current,
            managers,
        ),
        ExecuteMsgWithManagers::RemoveVestingManagers { managers } => remove_vesting_managers(
            sender,
            owner,
            current,
            managers,
        ),
    }
}

/// Answers a with_managers query, where that extension is enabled: the
/// vesting managers, in key order.
pub fn handle_query_managers_msg(extensions: Extensions, managers: Vec<String>, msg: &QueryMsgWithManagers) -> (r:
    Result<Vec<String>, VestingError>)
    ensures
        !extensions.with_managers ==> r == Err::<Vec<String>, VestingError>(
            VestingError::ExtensionNotEnabled(Extension::WithManagers),
        ),
        extensions.with_managers ==> (r matches Ok(v) && v@ == managers@),
{
    match check_extension(extensions, Extension::WithManagers) {
        Ok(()) => {},
        Err(e) => {
            return Err(e);
        },
    }
    match msg {
        QueryMsgWithManagers::VestingManagers {} => Ok(managers),
    }
}

/// Answers a historical query, where that extension is enabled, from the
/// record of the address (`info`) or the totals (`state`) at the height:
/// the amount not yet claimed.
pub fn handle_query_historical_msg(
    extensions: Extensions,
    msg: &QueryMsgHistorical,
    info: Option<VestingInfo>,
    state: Option<VestingState>,
) -> (r: Result<u128, VestingError>)
    ensures
        !extensions.historical ==> r == Err::<u128, VestingError>(
            VestingError::ExtensionNotEnabled(Extension::Historical),
        ),
        extensions.historical ==> match msg {
            QueryMsgHistorical::UnclaimedAmountAtHeight { .. } => match info {
                None => r == Ok::<u128, VestingError>(0),
                Some(i) => if granted_sum(i.schedules@) <= u128::MAX && i.released_amount
                    <= granted_sum(i.schedules@) {
                    r == Ok::<u128, VestingError>((granted_sum(i.schedules@) - i.released_amount) as u128)
                } else {
                    r == Err::<u128, VestingError>(VestingError::Overflow)
                },
            },
            QueryMsgHistorical::UnclaimedTotalAmountAtHeight { .. } => match state {
                None => r == Ok::<u128, VestingError>(0),
                Some(s) => if s.total_released <= s.total_granted {
                    r == Ok::<u128, VestingError>((s.total_granted - s.total_released) as u128)
                } else {
                    r == Err::<u128, VestingError>(VestingError::Overflow)
                },
            },
        },
{
    match check_extension(extensions, Extension::Historical) {
        Ok(()) => {},
        Err(e) => {
            return Err(e);
        },
    }
    match msg {
        QueryMsgHistorical::UnclaimedAmountAtHeight { .. } => query_unclaimed_amount_at_height(info),
        QueryMsgHistorical::UnclaimedTotalAmountAtHeight { .. } => query_total_unclaimed_amount_at_height(state),
    }
}

/// Routes a managed message, where that extension is enabled: the vesting
/// accounts are removed, given each one's stored record in order, with what
/// they had not claimed going to the clawback account.
pub fn handle_execute_managed_msg(
    extensions: Extensions,
    sender: &String,
    owner: &String,
    msg: &ExecuteMsgManaged,
    stored: &Vec<Option<VestingInfo>>,
    state: Option<VestingState>,
) -> (r: Result<RemovalOutcome, VestingError>)
    requires
        match msg {
            ExecuteMsgManaged::RemoveVestingAccounts { vesting_accounts, .. } => stored@.len()
                == vesting_accounts@.len(),
        },
    ensures
        !extensions.managed ==> r == Err::<RemovalOutcome, VestingError>(
            VestingError::ExtensionNotEnabled(Extension::Managed),
        ),
        (extensions.managed && sender@ != owner@) ==> r == Err::<RemovalOutcome, VestingError>(
            VestingError::Unauthorized,
        ),
        (extensions.managed && sender@ == owner@) ==> match msg {
            ExecuteMsgManaged::RemoveVestingAccounts { vesting_accounts, .. } => match removal_fold(
                vesting_accounts@,
                stored@,
                state,
                vesting_accounts@.len(),
            ) {
                Ok(m) => r is Ok && clawbacks_model(r.unwrap().clawbacks@) == m.0 && r.unwrap().state
                    == m.1,
                Err(e) => r == Err::<RemovalOutcome, VestingError>(e),
            },
        },
{
    match check_extension(extensions, Extension::Managed) {
        Ok(()) => {},
        Err(e) => {
            return Err(e);
        },
    }
    match msg {
        ExecuteMsgManaged::RemoveVestingAccounts { vesting_accounts, .. } => remove_vesting_accounts(
            sender,
            owner,
            vesting_accounts,
            stored,
            state,
        ),
    }
}

} // verus!
