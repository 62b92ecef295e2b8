//! The data that the lockdrop contract keeps.
use crate::numeric::{Dec, Dec256, U256};
use crate::vesting::types::AssetInfo;
use vstd::prelude::*;

verus! {

/// The NTRN denomination as a string.
pub fn untrn_denom() -> (r: String)
    ensures
        r@ == "untrn"@,
{
    "untrn".to_owned()
}

/// An amount of a native denomination.
#[derive(Clone, Debug, PartialEq, Eq)]
pub struct Coin {
    pub denom: String,
    pub amount: u128,
}

/// The two liquidity pools of the lockdrop.
#[derive(Clone, Copy, Debug, PartialEq, Eq, Structural)]
pub enum PoolType {
    USDC,
    ATOM,
}

impl PoolType {
    /// The storage key of the pool type.
    pub open spec fn key_bytes(self) -> Seq<u8> {
        match self {
            PoolType::USDC => seq![117u8, 115u8, 100u8, 99u8],
            PoolType::ATOM => seq![97u8, 116u8, 111u8, 109u8],
        }
    }

    /// The storage key of the pool type: the bytes of "usdc" or "atom".
    pub fn bytes(&self) -> (r: Vec<u8>)
        ensures
            r@ == self.key_bytes(),
    {
        let mut v: Vec<u8> = Vec::new();
        match self {
            PoolType::USDC => {
                v.push(117u8);
                v.push(115u8);
                v.push(100u8);
                v.push(99u8);
            },
            PoolType::ATOM => {
                v.push(97u8);
                v.push(116u8);
                v.push(111u8);
                v.push(109u8);
            },
        }
        proof {
            assert(v@ =~= self.key_bytes());
        }
        v
    }

    /// The pool type stored under a key; an error for any other key.
    pub fn from_vec(value: &Vec<u8>) -> (r: Result<PoolType, LockdropError>)
        ensures
            value@ == PoolType::USDC.key_bytes() ==> r == Ok::<PoolType, LockdropError>(
                PoolType::USDC,
            ),
            value@ == PoolType::ATOM.key_bytes() ==> r == Ok::<PoolType, LockdropError>(
                PoolType::ATOM,
            ),
            (value@ != PoolType::USDC.key_bytes() && value@ != PoolType::ATOM.key_bytes()) ==> r
                == Err::<PoolType, LockdropError>(LockdropError::InvalidPoolType),
    {
        if value.len() == 4 {
            if value[0] == 117u8 && value[1] == 115u8 && value[2] == 100u8 && value[3] == 99u8 {
                proof {
                    assert(value@ =~= PoolType::USDC.key_bytes());
                }
                return Ok(PoolType::USDC);
            }
            if value[0] == 97u8 && value[1] == 116u8 && value[2] == 111u8 && value[3] == 109u8 {
                proof {
                    assert(value@ =~= PoolType::ATOM.key_bytes());
                }
                return Ok(PoolType::ATOM);
            }
        }
        Err(LockdropError::InvalidPoolType)
    }

    /// The name of the pool type: "usdc" or "atom".
    pub fn name(&self) -> (r: String)
        ensures
            *self == PoolType::USDC ==> r@ == "usdc"@,
            *self == PoolType::ATOM ==> r@ == "atom"@,
    {
        match self {
            PoolType::USDC => "usdc".to_owned(),
            PoolType::ATOM => "atom".to_owned(),
        }
    }
}

/// The pool types in key order.
pub fn pool_types() -> (r: Vec<PoolType>)
    ensures
        r@ == seq![PoolType::ATOM, PoolType::USDC],
{
    let mut v: Vec<PoolType> = Vec::new();
    v.push(PoolType::ATOM);
    v.push(PoolType::USDC);
    proof {
        assert(v@ =~= seq![PoolType::ATOM, PoolType::USDC]);
    }
    v
}

/// The reward coefficient of a lockup duration: a position of that duration
/// weighs `1 + coefficient` per token.
#[derive(Clone, Copy, Debug)]
pub struct LockupRewardsInfo {
    pub duration: u64,
    pub coefficient: Dec256,
}

/// The parameters of the lockdrop.
#[derive(Clone, Debug)]
pub struct Config {
    /// Account which can update the config
    pub owner: String,
    /// Account which can update the generator and token addresses
    pub token_info_manager: String,
    /// Credits contract address
    pub credits_contract: String,
    /// Bootstrap Auction contract address
    pub auction_contract: String,
    /// Generator (Staking for dual rewards) contract address
    pub generator: Option<String>,
    /// Timestamp when Contract will start accepting LP Token deposits
    pub init_timestamp: u64,
    /// Number of seconds during which lockup positions be accepted
    pub lock_window: u64,
    /// Withdrawal Window Length :: Post the deposit window
    pub withdrawal_window: u64,
    /// Min. no. of weeks allowed for lockup
    pub min_lock_duration: u64,
    /// Max. no. of weeks allowed for lockup
    pub max_lock_duration: u64,
    /// Total NTRN lockdrop incentives to be distributed among the users
    pub lockdrop_incentives: u128,
    /// Max lockup positions a user can have
    pub max_positions_per_user: u32,
    /// Describes rewards coefficients for each lockup duration
    pub lockup_rewards_info: Vec<LockupRewardsInfo>,
}

/// The parameters a lockdrop is created with.
#[derive(Clone, Debug)]
pub struct InstantiateMsg {
    /// Account which can update config; the creator when absent
    pub owner: Option<String>,
    /// Account which can update token addresses and generator
    pub token_info_manager: String,
    /// Credits contract address
    pub credits_contract: String,
    /// Auction contract address
    pub auction_contract: String,
    /// Timestamp when Contract will start accepting LP Token deposits
    pub init_timestamp: u64,
    /// Number of seconds during which lockup deposits will be accepted
    pub lock_window: u64,
    /// Withdrawal Window Length :: Post the deposit window
    pub withdrawal_window: u64,
    /// Min. no. of weeks allowed for lockup
    pub min_lock_duration: u64,
    /// Max. no. of weeks allowed for lockup
    pub max_lock_duration: u64,
    /// Max lockup positions a user can have
    pub max_positions_per_user: u32,
    /// Describes rewards coefficients for each lockup duration
    pub lockup_rewards_info: Vec<LockupRewardsInfo>,
}

/// The share of incentives allocated over all pools.
#[derive(Clone, Copy, Debug, PartialEq, Eq, Structural)]
pub struct State {
    /// Total NTRN incentives share
    pub total_incentives_share: u128,
}

/// A liquidity pool of the lockdrop.
#[derive(Clone, Debug)]
pub struct PoolInfo {
    pub lp_token: String,
    pub amount_in_lockups: u128,
    /// Share of total NTRN incentives allocated to this pool
    pub incentives_share: u128,
    /// Weighted LP Token balance used to calculate NTRN rewards a particular user can claim
    pub weighted_amount: U256,
    /// Ratio of Generator NTRN rewards accured to astroport pool share
    pub generator_ntrn_per_share: Dec,
    /// Ratio of Generator Proxy rewards accured to astroport pool share, per reward asset
    pub generator_proxy_per_share: Vec<(AssetInfo, Dec)>,
    /// Boolean value indicating if the LP Tokens are staked with the Generator contract or not
    pub is_staked: bool,
}

/// A user of the lockdrop.
#[derive(Clone, Copy, Debug, PartialEq, Eq, Structural)]
pub struct UserInfo {
    /// Total NTRN tokens user received as rewards for participation in the lockdrop
    pub total_ntrn_rewards: u128,
    /// NTRN tokens transferred to user
    pub ntrn_transferred: bool,
    /// Number of lockup positions the user is having
    pub lockup_positions_index: u32,
}

impl UserInfo {
    pub fn new() -> (r: UserInfo)
        ensures
            r.total_ntrn_rewards == 0,
            !r.ntrn_transferred,
            r.lockup_positions_index == 0,
    {
        UserInfo { total_ntrn_rewards: 0, ntrn_transferred: false, lockup_positions_index: 0 }
    }
}

/// A lockup position: LP tokens of one pool locked by one user for one duration.
#[derive(Clone, Debug)]
pub struct LockupInfo {
    /// LP units locked by the user
    pub lp_units_locked: u128,
    pub astroport_lp_transferred: Option<u128>,
    /// Whether the user has withdrawn once after the deposit window closed
    pub withdrawal_flag: bool,
    /// NTRN tokens received as rewards for participation in the lockdrop
    pub ntrn_rewards: u128,
    /// Generator NTRN tokens the position has received as rewards
    pub generator_ntrn_debt: u128,
    /// Generator proxy tokens the position has received as rewards, per asset
    pub generator_proxy_debt: Vec<(AssetInfo, u128)>,
    /// Timestamp beyond which this position can be unlocked
    pub unlock_timestamp: u64,
}

/// A lockup position as the lockdrop's first version stored it, with one
/// proxy reward debt in the generator's first proxy asset.
#[derive(Clone, Copy, Debug, PartialEq, Eq, Structural)]
pub struct LockupInfoV1 {
    pub lp_units_locked: u128,
    pub astroport_lp_transferred: Option<u128>,
    pub withdrawal_flag: bool,
    pub ntrn_rewards: u128,
    pub generator_ntrn_debt: u128,
    pub generator_proxy_debt: u128,
    pub unlock_timestamp: u64,
}

/// A lockup position named by its pool and its duration.
#[derive(Clone, Copy, Debug, PartialEq, Eq, Structural)]
pub struct LockUpInfoSummary {
    pub pool_type: PoolType,
    pub duration: u64,
}

/// What is known of a lockup position.
#[derive(Clone, Debug)]
pub struct LockUpInfoResponse {
    pub pool_type: PoolType,
    /// LP units locked by the user
    pub lp_units_locked: u128,
    /// Whether the user has withdrawn once after the deposit window closed
    pub withdrawal_flag: bool,
    /// NTRN tokens received as rewards for participation in the lockdrop
    pub ntrn_rewards: u128,
    pub duration: u64,
    /// Generator NTRN tokens the position received as rewards
    pub generator_ntrn_debt: u128,
    /// Generator base rewards the user can claim
    pub claimable_generator_astro_debt: u128,
    /// Generator proxy tokens the position received as rewards
    pub generator_proxy_debt: Vec<(AssetInfo, u128)>,
    /// Generator proxy tokens the user can claim
    pub claimable_generator_proxy_debt: Vec<(AssetInfo, u128)>,
    /// Timestamp beyond which this position can be unlocked
    pub unlock_timestamp: u64,
    /// The position's LP tokens of the pool
    pub astroport_lp_units: Option<u128>,
    pub astroport_lp_token: String,
    pub astroport_lp_transferred: Option<u128>,
}

/// The stages of the migration of the lockdrop's liquidity to new pools.
#[derive(Clone, Copy, Debug, PartialEq, Eq, Structural)]
pub enum MigrationState {
    MigrateLiquidity,
    MigrateUsers(u64),
    Completed,
}

/// The errors that lockdrop operations report.
#[derive(Clone, Debug, PartialEq, Eq)]
pub enum LockdropError {
    Overflow,
    DivideByZero,
    Unauthorized,
    InvalidPoolType,
    InvalidInitTimestamp(u64),
    InvalidLockupDurations,
    InvalidLockupRewardsInfo,
    InvalidRewardsDuration,
    InvalidMaxPositions,
    LockWindowClosed,
    WithdrawalWindowClosed,
    InvalidDuration,
    /// The duration is outside the allowed range, given by its bounds
    LockupDurationOutOfRange(u64, u64),
    /// The user already holds the given maximum of positions
    MaxPositionsReached(u32),
    InvalidWithdrawalRequest,
    WithdrawalAlreadyHappened,
    /// The amount exceeds the given maximum withdrawal
    AmountExceedsMaxWithdrawal(u128),
    WindowStillOpen,
    /// The position unlocks after the given number of seconds
    SecondsToUnlock(u64),
    LpAlreadyClaimed,
    NoRewardsToClaim,
    IncentiveNotFound,
    GeneratorNotSet,
    UnknownCw20Token,
    /// LP tokens of the pool are staked with the generator
    LpTokensStaked(PoolType),
    MigrationInProgress,
    /// A callback came from outside the contract
    ExternalCallback,
    /// The new pool has no native asset other than NTRN
    NoSecondLeg,
    MigrationWrongState,
    SlippageTooHigh,
    InvalidTokensSent,
    NotFound,
    /// The pool was already initialized
    AlreadySupported,
    /// Pools are added only while the deposit window is open
    PoolWindowClosed,
}

} // verus!

verus! {

/// The storage key of a pool type names it back: the two keys differ, and
/// reading a key gives the pool type it was made from.
pub proof fn law_pool_key_roundtrip(p: PoolType)
    ensures
        PoolType::USDC.key_bytes() != PoolType::ATOM.key_bytes(),
        p.key_bytes() == PoolType::USDC.key_bytes() ==> p == PoolType::USDC,
        p.key_bytes() == PoolType::ATOM.key_bytes() ==> p == PoolType::ATOM,
        p.key_bytes() == PoolType::USDC.key_bytes() || p.key_bytes() == PoolType::ATOM.key_bytes(),
{
    assert(PoolType::USDC.key_bytes()[0] != PoolType::ATOM.key_bytes()[0]);
}

} // verus!
