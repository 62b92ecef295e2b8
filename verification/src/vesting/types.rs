//! The data that vesting contracts keep.
use vstd::prelude::*;

verus! {

/// A point of a vesting schedule: a time and the amount vested by then.
#[derive(Clone, Copy, Debug, PartialEq, Eq, Structural)]
pub struct VestingSchedulePoint {
    /// The time, in seconds
    pub time: u64,
    /// The amount of tokens
    pub amount: u128,
}

/// A vesting schedule: an amount available at the start point, and, where an
/// end point is given, a linear release up to the end amount at the end time.
#[derive(Clone, Copy, Debug, PartialEq, Eq, Structural)]
pub struct VestingSchedule {
    pub start_point: VestingSchedulePoint,
    pub end_point: Option<VestingSchedulePoint>,
}

/// The vesting schedules of one address and the amount it has claimed.
#[derive(Clone, Debug, PartialEq, Eq)]
pub struct VestingInfo {
    pub schedules: Vec<VestingSchedule>,
    pub released_amount: u128,
}

/// The totals over all vesting accounts.
#[derive(Clone, Copy, Debug, PartialEq, Eq, Structural)]
pub struct VestingState {
    /// The total amount of tokens granted to the users
    pub total_granted: u128,
    /// The total amount of tokens already claimed
    pub total_released: u128,
}

impl VestingState {
    pub fn new() -> (r: VestingState)
        ensures
            r.total_granted == 0,
            r.total_released == 0,
    {
        VestingState { total_granted: 0, total_released: 0 }
    }
}

/// An address and the vesting schedules to register for it.
#[derive(Clone, Debug, PartialEq, Eq)]
pub struct VestingAccount {
    pub address: String,
    pub schedules: Vec<VestingSchedule>,
}

/// The vesting data of one address as queries return it.
#[derive(Clone, Debug, PartialEq, Eq)]
pub struct VestingAccountResponse {
    pub address: String,
    pub info: VestingInfo,
}

/// This enum describes the types of sorting that can be applied to some piece of data
#[derive(Clone, Copy, Debug, PartialEq, Eq, Structural)]
pub enum OrderBy {
    Asc,
    Desc,
}

/// Contains extensions information for the contract.
#[derive(Clone, Copy, Debug, PartialEq, Eq, Structural)]
pub struct Extensions {
    /// Whether the historical extension is enabled for the contract.
    pub historical: bool,
    /// Whether the managed extension is enabled for the contract.
    pub managed: bool,
    /// Whether the with_managers extension is enabled for the contract.
    pub with_managers: bool,
}

/// A kind of asset: a CW20 token contract or a native denomination.
#[derive(Clone, Debug, PartialEq, Eq)]
pub enum AssetInfo {
    Token { contract_addr: String },
    NativeToken { denom: String },
}

impl AssetInfo {
    pub open spec fn same(self, other: AssetInfo) -> bool {
        match (self, other) {
            (AssetInfo::Token { contract_addr: a }, AssetInfo::Token { contract_addr: b }) => a@
                == b@,
            (AssetInfo::NativeToken { denom: a }, AssetInfo::NativeToken { denom: b }) => a@ == b@,
            _ => false,
        }
    }

    /// Whether both name the same asset.
    pub fn equals(&self, other: &AssetInfo) -> (r: bool)
        ensures
            r == self.same(*other),
    {
        match self {
            AssetInfo::Token { contract_addr: a } => match other {
                AssetInfo::Token { contract_addr: b } => a.eq(b),
                AssetInfo::NativeToken { .. } => false,
            },
            AssetInfo::NativeToken { denom: a } => match other {
                AssetInfo::NativeToken { denom: b } => a.eq(b),
                AssetInfo::Token { .. } => false,
            },
        }
    }

    /// A copy of the asset kind.
    pub fn duplicate(&self) -> (r: AssetInfo)
        ensures
            r == *self,
    {
        match self {
            AssetInfo::Token { contract_addr } => AssetInfo::Token {
                contract_addr: contract_addr.clone(),
            },
            AssetInfo::NativeToken { denom } => AssetInfo::NativeToken { denom: denom.clone() },
        }
    }
}

/// The extensions a vesting contract can enable.
#[derive(Clone, Copy, Debug, PartialEq, Eq, Structural)]
pub enum Extension {
    Historical,
    Managed,
    WithManagers,
}

/// The parameters of a vesting contract.
#[derive(Clone, Debug, PartialEq, Eq)]
pub struct Config {
    /// Address that's allowed to change contract parameters
    pub owner: String,
    /// The vested token, once it is set
    pub vesting_token: Option<AssetInfo>,
    /// Address that's allowed to change the vesting token
    pub token_info_manager: String,
    /// Contains extensions information of the contract
    pub extensions: Extensions,
}

/// Why a payment of native coins is refused.
#[derive(Clone, Debug, PartialEq, Eq)]
pub enum PaymentProblem {
    /// No coin, or a zero amount, was sent
    NoFunds,
    /// The coin sent is not of the given denomination
    MissingDenom(String),
    /// More than one coin was sent
    MultipleDenoms,
}

/// The errors that vesting operations report.
#[derive(Clone, Debug, PartialEq, Eq)]
pub enum VestingError {
    /// An arithmetic overflow or underflow
    Overflow,
    Unauthorized,
    AmountIsNotAvailable,
    /// A schedule of the given address is not increasing in time and amount
    VestingScheduleError(String),
    /// The schedules to register do not add up to the amount received
    VestingScheduleAmountError,
    VestingTokenIsNotSet,
    /// The extension is not enabled for the contract
    ExtensionNotEnabled(Extension),
    MigrationError,
    /// A stored vesting record was not found
    NotFound,
    /// The native payment is refused
    Payment(PaymentProblem),
}

} // verus!
