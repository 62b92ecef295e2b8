//! Configuration, extensions, vesting managers and liquidity migration of the
//! vesting contracts.
use crate::lockdrop::types::Coin;
use crate::numeric::Dec;
use crate::vesting::accounts::copy_schedules;
use crate::vesting::schedule::{
    compute_share, compute_unclaimed_amount, end_amount_sum, granted_sum, sum_granted,
};
use crate::vesting::types::{
    AssetInfo, Config, Extension, Extensions, OrderBy, PaymentProblem, VestingError, VestingInfo, VestingSchedule,
    VestingSchedulePoint, VestingState,
};
use vstd::prelude::*;

verus! {

/// The vested token of the contract, or an error while it is not set.
pub fn get_vesting_token(config: &Config) -> (r: Result<AssetInfo, VestingError>)
    ensures
        match config.vesting_token {
            Some(t) => r == Ok::<AssetInfo, VestingError>(t),
            None => r == Err::<AssetInfo, VestingError>(VestingError::VestingTokenIsNotSet),
        },
{
    match &config.vesting_token {
        Some(t) => Ok(t.duplicate()),
        None => Err(VestingError::VestingTokenIsNotSet),
    }
}

/// Sets the vested token; only the owner or the token info manager may.
pub fn set_vesting_token(config: Config, sender: &String, token: AssetInfo) -> (r: Result<
    Config,
    VestingError,
>)
    ensures
        (sender@ != config.owner@ && sender@ != config.token_info_manager@) ==> r == Err::<
            Config,
            VestingError,
        >(VestingError::Unauthorized),
        (sender@ == config.owner@ || sender@ == config.token_info_manager@) ==> r == Ok::<
            Config,
            VestingError,
        >(Config { vesting_token: Some(token), ..config }),
{
    if !sender.eq(&config.owner) && !sender.eq(&config.token_info_manager) {
        return Err(VestingError::Unauthorized);
    }
    let mut config = config;
    config.vesting_token = Some(token);
    Ok(config)
}

/// Whether `sender` may register vesting accounts: the owner or a vesting manager.
pub fn is_sender_whitelisted(config: &Config, managers: &Vec<String>, sender: &String) -> (r:
    bool)
    ensures
        r == (sender@ == config.owner@ || exists|i: int|
            0 <= i < managers@.len() && #[trigger] managers@[i]@ == sender@),
{
    if sender.eq(&config.owner) {
        return true;
    }
    contains_address(managers, sender)
}

/// Whether `v` holds `addr`.
pub fn contains_address(v: &Vec<String>, addr: &String) -> (r: bool)
    ensures
        r == exists|i: int| 0 <= i < v@.len() && #[trigger] v@[i]@ == addr@,
{
    let mut i: usize = 0;
    while i < v.len()
        invariant
            i <= v@.len(),
            forall|k: int| 0 <= k < i ==> #[trigger] v@[k]@ != addr@,
        decreases v@.len() - i,
    {
        if v[i].eq(addr) {
            return true;
        }
        i = i + 1;
    }
    false
}

pub open spec fn extension_enabled(extensions: Extensions, which: Extension) -> bool {
    match which {
        Extension::Historical => extensions.historical,
        Extension::Managed => extensions.managed,
        Extension::WithManagers => extensions.with_managers,
    }
}

/// Checks that an extension is enabled before its messages are handled; the
/// error names the extension.
pub fn check_extension(extensions: Extensions, which: Extension) -> (r: Result<(), VestingError>)
    ensures
        r is Ok <==> extension_enabled(extensions, which),
        r matches Err(e) ==> e == VestingError::ExtensionNotEnabled(which),
{
    let enabled = match which {
        Extension::Historical => extensions.historical,
        Extension::Managed => extensions.managed,
        Extension::WithManagers => extensions.with_managers,
    };
    if enabled {
        Ok(())
    } else {
        Err(VestingError::ExtensionNotEnabled(which))
    }
}


/// The set of addresses in a list.
pub open spec fn address_set(v: Seq<String>) -> Set<Seq<char>> {
    Set::new(|a: Seq<char>| exists|i: int| 0 <= i < v.len() && #[trigger] v[i]@ == a)
}

/// Adding the first `n` of `new` to the managers `set`: the set after, and the
/// addresses that were added, in order.
pub open spec fn add_managers_fold(set: Set<Seq<char>>, new: Seq<String>, n: nat) -> (
    Set<Seq<char>>,
    Seq<Seq<char>>,
)
    decreases n,
{
    if n == 0 || n > new.len() {
        (set, seq![])
    } else {
        let prev = add_managers_fold(set, new, (n - 1) as nat);
        let m = new[n - 1]@;
        if prev.0.contains(m) {
            prev
        } else {
            (prev.0.insert(m), prev.1.push(m))
        }
    }
}

/// Removing the first `n` of `gone` from the managers `set`: the set after,
/// and the addresses that were removed, in order.
pub open spec fn remove_managers_fold(set: Set<Seq<char>>, gone: Seq<String>, n: nat) -> (
    Set<Seq<char>>,
    Seq<Seq<char>>,
)
    decreases n,
{
    if n == 0 || n > gone.len() {
        (set, seq![])
    } else {
        let prev = remove_managers_fold(set, gone, (n - 1) as nat);
        let m = gone[n - 1]@;
        if prev.0.contains(m) {
            (prev.0.remove(m), prev.1.push(m))
        } else {
            prev
        }
    }
}

pub open spec fn views(v: Seq<String>) -> Seq<Seq<char>> {
    v.map_values(|s: String| s@)
}

/// Adds vesting managers, who may then register vesting accounts; only the
/// owner may. Returns the managers after, and those newly added in order.
pub fn add_vesting_managers(
    sender: &String,
    owner: &String,
    current: Vec<String>,
    managers: &Vec<String>,
) -> (r: Result<(Vec<String>, Vec<String>), VestingError>)
    ensures
        sender@ != owner@ ==> r == Err::<(Vec<String>, Vec<String>), VestingError>(
            VestingError::Unauthorized,
        ),
        sender@ == owner@ ==> (r is Ok && ({
            let o = r.unwrap();
            let f = add_managers_fold(address_set(current@), managers@, managers@.len());
            address_set(o.0@) == f.0 && views(o.1@) == f.1
        })),
{
    if !sender.eq(owner) {
        return Err(VestingError::Unauthorized);
    }
    let ghost start = address_set(current@);
    let mut set = current;
    let mut added: Vec<String> = Vec::new();
    let mut i: usize = 0;
    proof {
        assert(views(added@) =~= Seq::<Seq<char>>::empty());
    }
    while i < managers.len()
        invariant
            i <= managers@.len(),
            start == address_set(current@),
            address_set(set@) == add_managers_fold(start, managers@, i as nat).0,
            views(added@) == add_managers_fold(start, managers@, i as nat).1,
        decreases managers@.len() - i,
    {
        let m = &managers[i];
        if !contains_address(&set, m) {
            let ghost prev_set = set@;
            let ghost prev_added = added@;
            set.push(m.clone());
            added.push(m.clone());
            proof {
                assert(address_set(set@) =~= address_set(prev_set).insert(m@)) by {
                    assert forall|a: Seq<char>| address_set(set@).contains(a) implies address_set(
                        prev_set,
                    ).insert(m@).contains(a) by {
                        let k = choose|k: int| 0 <= k < set@.len() && #[trigger] set@[k]@ == a;
                        if k < prev_set.len() {
                            assert(prev_set[k] == set@[k]);
                        }
                    }
                    assert forall|a: Seq<char>| address_set(prev_set).insert(m@).contains(
                        a,
                    ) implies address_set(set@).contains(a) by {
                        if a == m@ {
                            assert(set@[prev_set.len() as int]@ == a);
                        } else {
                            let k = choose|k: int|
                                0 <= k < prev_set.len() && #[trigger] prev_set[k]@ == a;
                            assert(set@[k] == prev_set[k]);
                        }
                    }
                }
                assert(views(added@) =~= views(prev_added).push(m@));
            }
        }
        i = i + 1;
    }
    Ok((set, added))
}

/// Removes vesting managers; only the owner may. Returns the managers after,
/// and those removed in order.
pub fn remove_vesting_managers(
    sender: &String,
    owner: &String,
    current: Vec<String>,
    managers: &Vec<String>,
) -> (r: Result<(Vec<String>, Vec<String>), VestingError>)
    ensures
        sender@ != owner@ ==> r == Err::<(Vec<String>, Vec<String>), VestingError>(
            VestingError::Unauthorized,
        ),
        sender@ == owner@ ==> (r is Ok && ({
            let o = r.unwrap();
            let f = remove_managers_fold(address_set(current@), managers@, managers@.len());
            address_set(o.0@) == f.0 && views(o.1@) == f.1
        })),
{
    if !sender.eq(owner) {
        return Err(VestingError::Unauthorized);
    }
    let ghost start = address_set(current@);
    let mut set = current;
    let mut removed: Vec<String> = Vec::new();
    let mut i: usize = 0;
    proof {
        assert(views(removed@) =~= Seq::<Seq<char>>::empty());
    }
    while i < managers.len()
        invariant
            i <= managers@.len(),
            start == address_set(current@),
            address_set(set@) == remove_managers_fold(start, managers@, i as nat).0,
            views(removed@) == remove_managers_fold(start, managers@, i as nat).1,
        decreases managers@.len() - i,
    {
        let m = &managers[i];
        if contains_address(&set, m) {
            let ghost prev_set = set@;
            let ghost prev_removed = removed@;
            set = without_address(&set, m);
            removed.push(m.clone());
            proof {
                assert(address_set(set@) =~= address_set(prev_set).remove(m@)) by {
                    assert forall|a: Seq<char>| address_set(set@).contains(a) implies address_set(
                        prev_set,
                    ).remove(m@).contains(a) by {
                        let k = choose|k: int| 0 <= k < set@.len() && #[trigger] set@[k]@ == a;
                        assert(set@[k]@ != m@);
                    }
                    assert forall|a: Seq<char>| address_set(prev_set).remove(m@).contains(
                        a,
                    ) implies address_set(set@).contains(a) by {
                        let k = choose|k: int|
                            0 <= k < prev_set.len() && #[trigger] prev_set[k]@ == a;
                        assert(prev_set[k]@ != m@);
                    }
                }
                assert(views(removed@) =~= views(prev_removed).push(m@));
            }
        }
        i = i + 1;
    }
    Ok((set, removed))
}

/// The addresses of `v` other than `addr`, in order.
fn without_address(v: &Vec<String>, addr: &String) -> (r: Vec<String>)
    ensures
        forall|a: Seq<char>| address_set(r@).contains(a) <==> (address_set(v@).contains(a) && a
            != addr@),
        forall|k: int| 0 <= k < r@.len() ==> #[trigger] r@[k]@ != addr@,
{
    let mut r: Vec<String> = Vec::new();
    let mut i: usize = 0;
    while i < v.len()
        invariant
            i <= v@.len(),
            forall|k: int| 0 <= k < r@.len() ==> #[trigger] r@[k]@ != addr@,
            forall|a: Seq<char>| address_set(r@).contains(a) <==> (address_set(v@.take(i as int)).contains(a) && a != addr@),
        decreases v@.len() - i,
    {
        let ghost prev = r@;
        if !v[i].eq(addr) {
            r.push(v[i].clone());
        }
        proof {
            assert forall|a: Seq<char>| address_set(r@).contains(a) <==> (address_set(
                v@.take(i + 1),
            ).contains(a) && a != addr@) by {
                if address_set(r@).contains(a) {
                    let k = choose|k: int| 0 <= k < r@.len() && #[trigger] r@[k]@ == a;
                    if k < prev.len() {
                        assert(prev[k] == r@[k]);
                        assert(address_set(prev).contains(a));
                        let k2 = choose|k2: int| 0 <= k2 < i && #[trigger] v@.take(i as int)[k2]@ == a;
                        assert(v@.take(i + 1)[k2] == v@.take(i as int)[k2]);
                    } else {
                        assert(v@.take(i + 1)[i as int] == v@[i as int]);
                    }
                }
                if address_set(v@.take(i + 1)).contains(a) && a != addr@ {
                    let k = choose|k: int| 0 <= k < i + 1 && #[trigger] v@.take(i + 1)[k]@ == a;
                    if k < i {
                        assert(v@.take(i as int)[k] == v@.take(i + 1)[k]);
                        assert(address_set(prev).contains(a));
                        let k2 = choose|k2: int| 0 <= k2 < prev.len() && #[trigger] prev[k2]@ == a;
                        assert(r@[k2] == prev[k2]);
                    } else {
                        assert(r@[prev.len() as int]@ == a);
                    }
                }
            }
        }
        i = i + 1;
    }
    proof {
        assert(v@.take(v@.len() as int) =~= v@);
    }
    r
}

/// The unclaimed amount of all accounts at a height: what was granted less
/// what was claimed, or zero where no totals were recorded by then.
pub fn query_total_unclaimed_amount_at_height(state: Option<VestingState>) -> (r: Result<
    u128,
    VestingError,
>)
    ensures
        match state {
            None => r == Ok::<u128, VestingError>(0),
            Some(s) => if s.total_released <= s.total_granted {
                r == Ok::<u128, VestingError>((s.total_granted - s.total_released) as u128)
            } else {
                r == Err::<u128, VestingError>(VestingError::Overflow)
            },
        },
{
    match state {
        None => Ok(0),
        Some(s) => match s.total_granted.checked_sub(s.total_released) {
            Some(v) => Ok(v),
            None => Err(VestingError::Overflow),
        },
    }
}

/// The unclaimed amount of one account at a height: what its schedules grant
/// less what it claimed, or zero where it had no record by then.
pub fn query_unclaimed_amount_at_height(info: Option<VestingInfo>) -> (r: Result<
    u128,
    VestingError,
>)
    ensures
        match info {
            None => r == Ok::<u128, VestingError>(0),
            Some(i) => if granted_sum(i.schedules@) <= u128::MAX && i.released_amount
                <= granted_sum(i.schedules@) {
                r == Ok::<u128, VestingError>((granted_sum(i.schedules@) - i.released_amount) as u128)
            } else {
                r == Err::<u128, VestingError>(VestingError::Overflow)
            },
        },
{
    match info {
        None => Ok(0),
        Some(i) => match compute_unclaimed_amount(&i) {
            Ok(v) => Ok(v),
            Err(_) => Err(VestingError::Overflow),
        },
    }
}

pub const MAX_LIMIT: u32 = 30;
pub const DEFAULT_LIMIT: u32 = 10;

/// A page of vesting records to read, in key order.
#[derive(Clone, Debug, PartialEq, Eq)]
pub struct VestingPage {
    /// Exclusive lower bound of the keys
    pub min: Option<String>,
    /// Exclusive upper bound of the keys
    pub max: Option<String>,
    /// Whether to read in ascending key order
    pub ascending: bool,
    /// The most records to read
    pub limit: u32,
}

/// The page that a listing of vesting records reads: at most `limit` records
/// (ten by default, thirty at most), in ascending order after `start_after`
/// when asked for, or else in descending order before it.
pub fn vesting_infos_page(
    start_after: Option<String>,
    limit: Option<u32>,
    order_by: Option<OrderBy>,
) -> (r: VestingPage)
    ensures
        r.limit == match limit {
            Some(l) => if l < MAX_LIMIT { l } else { MAX_LIMIT },
            None => DEFAULT_LIMIT,
        },
        r.ascending == (order_by == Some(OrderBy::Asc)),
        r.ascending ==> r.min == start_after && r.max is None,
        !r.ascending ==> r.max == start_after && r.min is None,
{
    let l = match limit {
        Some(l) => l,
        None => DEFAULT_LIMIT,
    };
    let limit = if l < MAX_LIMIT {
        l
    } else {
        MAX_LIMIT
    };
    match order_by {
        Some(OrderBy::Asc) => VestingPage { min: start_after, max: None, ascending: true, limit },
        _ => VestingPage { min: None, max: start_after, ascending: false, limit },
    }
}

/// Records the vesting of liquidity migrated from the previous vesting
/// contract: the totals grow by what the record's schedules grant.
pub fn handle_migrate_xyk_liquidity(user_vesting_info: &VestingInfo, state: Option<VestingState>) -> (r:
    Result<VestingState, VestingError>)
    ensures
        ({
            let old = match state {
                Some(s) => s,
                None => VestingState { total_granted: 0, total_released: 0 },
            };
            let g = granted_sum(user_vesting_info.schedules@);
            &&& r is Ok <==> old.total_granted + g <= u128::MAX
            &&& r matches Ok(s) ==> s.total_granted == old.total_granted + g && s.total_released
                == old.total_released
            &&& r matches Err(e) ==> e == VestingError::Overflow
        }),
{
    let old = match state {
        Some(s) => s,
        None => VestingState::new(),
    };
    let to_deposit = match sum_granted(&user_vesting_info.schedules) {
        Some(g) => g,
        None => {
            return Err(VestingError::Overflow);
        },
    };
    match old.total_granted.checked_add(to_deposit) {
        Some(total_granted) => Ok(VestingState { total_granted, total_released: old.total_released }),
        None => Err(VestingError::Overflow),
    }
}

/// The vesting record handed to the new vesting contract after migration:
/// one schedule that starts when the last schedule of the user started, with
/// nothing at its start and, where that schedule had an end point, the newly
/// received liquidity `balance - init_balance` at its end time.
pub fn reschedule_after_migration(user_info: &VestingInfo, balance: u128, init_balance: u128) -> (r:
    Result<(u128, VestingInfo), VestingError>)
    requires
        user_info.schedules@.len() > 0,
    ensures
        init_balance > balance ==> r == Err::<(u128, VestingInfo), VestingError>(
            VestingError::Overflow,
        ),
        init_balance <= balance ==> (r is Ok && ({
            let o = r.unwrap();
            let last = user_info.schedules@.last();
            &&& o.0 == balance - init_balance
            &&& o.1.released_amount == 0
            &&& o.1.schedules@ == seq![
                VestingSchedule {
                    start_point: VestingSchedulePoint { time: last.start_point.time, amount: 0 },
                    end_point: match last.end_point {
                        Some(e) => Some(VestingSchedulePoint { time: e.time, amount: o.0 }),
                        None => None,
                    },
                },
            ]
        })),
{
    let current_balance = match balance.checked_sub(init_balance) {
        Some(v) => v,
        None => {
            return Err(VestingError::Overflow);
        },
    };
    let schedule = user_info.schedules[user_info.schedules.len() - 1];
    let new_end_point = match schedule.end_point {
        Some(end_point) => Some(VestingSchedulePoint { time: end_point.time, amount: current_balance }),
        None => None,
    };
    let new_schedule = VestingSchedule {
        start_point: VestingSchedulePoint { time: schedule.start_point.time, amount: 0 },
        end_point: new_end_point,
    };
    let mut schedules: Vec<VestingSchedule> = Vec::new();
    schedules.push(new_schedule);
    proof {
        assert(schedules@ =~= seq![new_schedule]);
    }
    Ok((current_balance, VestingInfo { schedules, released_amount: 0 }))
}

/// How a user's liquidity leaves the previous vesting contract.
#[derive(Clone, Copy, Debug, PartialEq, Eq, Structural)]
pub struct MigrationPlan {
    /// Liquidity too small to migrate, sent back to the user
    pub dust_transfer: u128,
    /// Liquidity to withdraw and provide to the new pool
    pub amount: u128,
    /// The slippage tolerance for providing liquidity
    pub slippage_tolerance: Dec,
}

/// Plans the migration of a user's liquidity: nothing while the contract holds
/// none; else the user's share (its schedules' end amounts less its claims),
/// returned to the user where it is below the dust threshold, or migrated
/// otherwise, with a slippage tolerance no higher than the maximum.
pub fn plan_liquidity_migration(
    info: &VestingInfo,
    max_available_amount: u128,
    dust_threshold: u128,
    slippage_tolerance: Option<Dec>,
    max_slippage: Dec,
) -> (r: Result<Option<MigrationPlan>, VestingError>)
    ensures
        max_available_amount == 0 ==> r == Ok::<Option<MigrationPlan>, VestingError>(None),
        ({
            let e = end_amount_sum(info.schedules@);
            let share_ok = e <= u128::MAX && info.released_amount <= e;
            let share = e - info.released_amount;
            let too_high = match slippage_tolerance {
                Some(s) => s.atomics > max_slippage.atomics,
                None => false,
            };
            &&& (max_available_amount != 0 && !share_ok) ==> r == Err::<
                Option<MigrationPlan>,
                VestingError,
            >(VestingError::Overflow)
            &&& (max_available_amount != 0 && share_ok && too_high) ==> r == Err::<
                Option<MigrationPlan>,
                VestingError,
            >(VestingError::MigrationError)
            &&& (max_available_amount != 0 && share_ok && !too_high) ==> r == Ok::<
                Option<MigrationPlan>,
                VestingError,
            >(
                Some(
                    MigrationPlan {
                        dust_transfer: if share < dust_threshold { share as u128 } else { 0 },
                        amount: if share < dust_threshold { 0 } else { share as u128 },
                        slippage_tolerance: match slippage_tolerance {
                            Some(s) => s,
                            None => max_slippage,
                        },
                    },
                ),
            )
        }),
{
    if max_available_amount == 0 {
        return Ok(None);
    }
    let user_share = match compute_share(info) {
        Ok(v) => v,
        Err(_) => {
            return Err(VestingError::Overflow);
        },
    };
    let (dust_transfer, amount) = if user_share < dust_threshold {
        (user_share, 0)
    } else {
        (0, user_share)
    };
    let slippage = match slippage_tolerance {
        Some(s) => {
            if s.atomics > max_slippage.atomics {
                return Err(VestingError::MigrationError);
            }
            s
        },
        None => max_slippage,
    };
    Ok(Some(MigrationPlan { dust_transfer, amount, slippage_tolerance: slippage }))
}


/// The vesting state after `amount` of liquidity left for the new pool: it
/// counts as released.
pub fn release_for_migration(state: Option<VestingState>, amount: u128) -> (r: Result<
    VestingState,
    VestingError,
>)
    ensures
        ({
            let old = match state {
                Some(s) => s,
                None => VestingState { total_granted: 0, total_released: 0 },
            };
            &&& old.total_released + amount > u128::MAX ==> r == Err::<VestingState, VestingError>(
                VestingError::Overflow,
            )
            &&& old.total_released + amount <= u128::MAX ==> r == Ok::<VestingState, VestingError>(
                VestingState {
                    total_granted: old.total_granted,
                    total_released: (old.total_released + amount) as u128,
                },
            )
        }),
{
    let old = match state {
        Some(s) => s,
        None => VestingState::new(),
    };
    match old.total_released.checked_add(amount) {
        Some(v) => Ok(VestingState { total_granted: old.total_granted, total_released: v }),
        None => Err(VestingError::Overflow),
    }
}

/// What withdrawing liquidity from the old pool gave, from the balances of
/// both assets before and after; liquidity is provided to the new pool only
/// where both amounts are positive. Returns the two amounts and whether to
/// provide them.
pub fn withdrawn_liquidity(
    ntrn_init_balance: u128,
    ntrn_balance: u128,
    paired_init_balance: u128,
    paired_balance: u128,
) -> (r: Result<(u128, u128, bool), VestingError>)
    ensures
        (ntrn_init_balance > ntrn_balance || paired_init_balance > paired_balance) ==> r == Err::<
            (u128, u128, bool),
            VestingError,
        >(VestingError::Overflow),
        (ntrn_init_balance <= ntrn_balance && paired_init_balance <= paired_balance) ==> r == Ok::<
            (u128, u128, bool),
            VestingError,
        >(
            (
                (ntrn_balance - ntrn_init_balance) as u128,
                (paired_balance - paired_init_balance) as u128,
                ntrn_balance != ntrn_init_balance && paired_balance != paired_init_balance,
            ),
        ),
{
    let ntrn = match ntrn_balance.checked_sub(ntrn_init_balance) {
        Some(v) => v,
        None => {
            return Err(VestingError::Overflow);
        },
    };
    let paired = match paired_balance.checked_sub(paired_init_balance) {
        Some(v) => v,
        None => {
            return Err(VestingError::Overflow);
        },
    };
    Ok((ntrn, paired, ntrn != 0 && paired != 0))
}

/// Only the owner may register vesting accounts, by sending the vested
/// token itself.
pub fn check_receive_sender(config: &Config, cw20_sender: &String, token: &String) -> (r: Result<
    (),
    VestingError,
>)
    ensures
        r is Ok <==> (cw20_sender@ == config.owner@ && config.vesting_token is Some
            && config.vesting_token.unwrap().same(AssetInfo::Token { contract_addr: *token })),
        r matches Err(e) ==> e == VestingError::Unauthorized,
{
    if !cw20_sender.eq(&config.owner) {
        return Err(VestingError::Unauthorized);
    }
    match &config.vesting_token {
        Some(t) => {
            let sender_token = AssetInfo::Token { contract_addr: token.clone() };
            proof {
                assert(t.same(sender_token) == sender_token.same(*t));
            }
            if sender_token.equals(t) {
                Ok(())
            } else {
                Err(VestingError::Unauthorized)
            }
        },
        None => Err(VestingError::Unauthorized),
    }
}

/// `cw_utils::must_pay`: exactly one coin, non-zero and of `denom`, must
/// have been sent; its amount is returned.
#[verifier::external_body]
fn cw_must_pay(funds: &Vec<Coin>, denom: &String) -> (r: Result<u128, PaymentProblem>)
    ensures
        funds@.len() == 0 ==> (r is Err && r->Err_0 == PaymentProblem::NoFunds),
        funds@.len() >= 2 ==> (r is Err && r->Err_0 == PaymentProblem::MultipleDenoms),
        (funds@.len() == 1 && funds@[0].amount == 0) ==> (r is Err && r->Err_0 == PaymentProblem::NoFunds),
        (funds@.len() == 1 && funds@[0].amount != 0 && funds@[0].denom@ != denom@) ==> (r is Err
            && r->Err_0 is MissingDenom && r->Err_0->MissingDenom_0@ == denom@),
        (funds@.len() == 1 && funds@[0].amount != 0 && funds@[0].denom@ == denom@) ==> (r is Ok
            && r->Ok_0 == funds@[0].amount),
{
    let info = cosmwasm_std::MessageInfo {
        sender: cosmwasm_std::Addr::unchecked(""),
        funds: funds.iter().map(|c| cosmwasm_std::Coin::new(c.amount, c.denom.clone())).collect(),
    };
    match cw_utils::must_pay(&info, denom) {
        Ok(v) => Ok(v.u128()),
        Err(cw_utils::PaymentError::MissingDenom(d)) => Err(PaymentProblem::MissingDenom(d)),
        Err(cw_utils::PaymentError::MultipleDenoms {}) => Err(PaymentProblem::MultipleDenoms),
        Err(_) => Err(PaymentProblem::NoFunds),
    }
}

/// The amount of a native registration of vesting accounts: the vested
/// token must be set and native, the sender whitelisted (the owner or a
/// vesting manager), and exactly one non-zero coin of the token sent.
pub fn native_register_amount(
    config: &Config,
    managers: &Vec<String>,
    sender: &String,
    funds: &Vec<Coin>,
) -> (r: Result<u128, VestingError>)
    ensures
        config.vesting_token is None ==> r == Err::<u128, VestingError>(VestingError::VestingTokenIsNotSet),
        config.vesting_token matches Some(t) ==> {
            let whitelisted = sender@ == config.owner@ || exists|i: int|
                0 <= i < managers@.len() && #[trigger] managers@[i]@ == sender@;
            match t {
                AssetInfo::NativeToken { denom } => if whitelisted {
                    &&& funds@.len() != 1 || funds@[0].amount == 0 || funds@[0].denom@ != denom@ ==> r is Err
                        && r->Err_0 is Payment
                    &&& (funds@.len() == 1 && funds@[0].amount != 0 && funds@[0].denom@ == denom@) ==> r
                        == Ok::<u128, VestingError>(funds@[0].amount)
                } else {
                    r == Err::<u128, VestingError>(VestingError::Unauthorized)
                },
                AssetInfo::Token { .. } => r == Err::<u128, VestingError>(VestingError::Unauthorized),
            }
        },
{
    let token = match get_vesting_token(config) {
        Ok(t) => t,
        Err(e) => {
            return Err(e);
        },
    };
    match token {
        AssetInfo::NativeToken { denom } => {
            if !is_sender_whitelisted(config, managers, sender) {
                return Err(VestingError::Unauthorized);
            }
            match cw_must_pay(funds, &denom) {
                Ok(v) => Ok(v),
                Err(p) => Err(VestingError::Payment(p)),
            }
        },
        AssetInfo::Token { .. } => Err(VestingError::Unauthorized),
    }
}

/// A registration of vesting accounts by a token transfer: the vested token
/// must be set, the transfer's sender whitelisted (the owner or a vesting
/// manager), and the token sent the vested token.
pub fn check_cw20_register(config: &Config, managers: &Vec<String>, cw20_sender: &String, token: &String) -> (r:
    Result<(), VestingError>)
    ensures
        config.vesting_token is None ==> r == Err::<(), VestingError>(VestingError::VestingTokenIsNotSet),
        config.vesting_token matches Some(t) ==> {
            let whitelisted = cw20_sender@ == config.owner@ || exists|i: int|
                0 <= i < managers@.len() && #[trigger] managers@[i]@ == cw20_sender@;
            if whitelisted && t.same(AssetInfo::Token { contract_addr: *token }) {
                r == Ok::<(), VestingError>(())
            } else {
                r == Err::<(), VestingError>(VestingError::Unauthorized)
            }
        },
{
    let vesting_token = match get_vesting_token(config) {
        Ok(t) => t,
        Err(e) => {
            return Err(e);
        },
    };
    let sender_token = AssetInfo::Token { contract_addr: token.clone() };
    proof {
        assert(vesting_token.same(sender_token) == sender_token.same(vesting_token));
    }
    if !is_sender_whitelisted(config, managers, cw20_sender) || !sender_token.equals(&vesting_token) {
        return Err(VestingError::Unauthorized);
    }
    Ok(())
}

/// The addresses among the first `n` of a list.
pub open spec fn prefix_addresses(v: Seq<String>, n: nat) -> Set<Seq<char>> {
    Set::new(|a: Seq<char>| exists|i: int| 0 <= i < n && i < v.len() && #[trigger] v[i]@ == a)
}

proof fn lemma_add_fold_union(set: Set<Seq<char>>, new: Seq<String>, n: nat)
    requires
        n <= new.len(),
    ensures
        add_managers_fold(set, new, n).0 == set.union(prefix_addresses(new, n)),
    decreases n,
{
    if n == 0 {
        assert(set.union(prefix_addresses(new, 0)) =~= set);
    } else {
        lemma_add_fold_union(set, new, (n - 1) as nat);
        let m = new[n - 1]@;
        assert(prefix_addresses(new, n) =~= prefix_addresses(new, (n - 1) as nat).insert(m)) by {
            assert forall|a: Seq<char>| prefix_addresses(new, n).contains(a) implies prefix_addresses(
                new,
                (n - 1) as nat,
            ).insert(m).contains(a) by {
                let i = choose|i: int| 0 <= i < n && i < new.len() && #[trigger] new[i]@ == a;
                if i < n - 1 {
                    assert(prefix_addresses(new, (n - 1) as nat).contains(a));
                }
            }
            assert forall|a: Seq<char>| prefix_addresses(new, (n - 1) as nat).insert(m).contains(a)
                implies prefix_addresses(new, n).contains(a) by {
                if a == m {
                    assert(new[n - 1]@ == a);
                } else {
                    let i = choose|i: int| 0 <= i < n - 1 && i < new.len() && #[trigger] new[i]@ == a;
                    assert(new[i]@ == a);
                }
            }
        }
        assert(add_managers_fold(set, new, n).0 =~= set.union(prefix_addresses(new, n)));
    }
}

proof fn lemma_remove_fold_difference(set: Set<Seq<char>>, gone: Seq<String>, n: nat)
    requires
        n <= gone.len(),
    ensures
        remove_managers_fold(set, gone, n).0 == set.difference(prefix_addresses(gone, n)),
    decreases n,
{
    if n == 0 {
        assert(set.difference(prefix_addresses(gone, 0)) =~= set);
    } else {
        lemma_remove_fold_difference(set, gone, (n - 1) as nat);
        let m = gone[n - 1]@;
        assert(prefix_addresses(gone, n) =~= prefix_addresses(gone, (n - 1) as nat).insert(m)) by {
            assert forall|a: Seq<char>| prefix_addresses(gone, n).contains(a) implies prefix_addresses(
                gone,
                (n - 1) as nat,
            ).insert(m).contains(a) by {
                let i = choose|i: int| 0 <= i < n && i < gone.len() && #[trigger] gone[i]@ == a;
                if i < n - 1 {
                    assert(prefix_addresses(gone, (n - 1) as nat).contains(a));
                }
            }
            assert forall|a: Seq<char>| prefix_addresses(gone, (n - 1) as nat).insert(m).contains(a)
                implies prefix_addresses(gone, n).contains(a) by {
                if a == m {
                    assert(gone[n - 1]@ == a);
                } else {
                    let i = choose|i: int| 0 <= i < n - 1 && i < gone.len() && #[trigger] gone[i]@ == a;
                    assert(gone[i]@ == a);
                }
            }
        }
        assert(remove_managers_fold(set, gone, n).0 =~= set.difference(prefix_addresses(gone, n)));
    }
}

/// Removing the vesting managers just added gives back the managers there
/// were, where none of those added was a manager before.
pub proof fn law_remove_undoes_add_managers(set: Set<Seq<char>>, managers: Seq<String>)
    requires
        forall|i: int| 0 <= i < managers.len() ==> !set.contains(#[trigger] managers[i]@),
    ensures
        remove_managers_fold(
            add_managers_fold(set, managers, managers.len()).0,
            managers,
            managers.len(),
        ).0 == set,
{
    lemma_add_fold_union(set, managers, managers.len());
    let added = add_managers_fold(set, managers, managers.len()).0;
    lemma_remove_fold_difference(added, managers, managers.len());
    let p = prefix_addresses(managers, managers.len());
    assert(set.union(p).difference(p) =~= set) by {
        assert forall|a: Seq<char>| p.contains(a) implies !set.contains(a) by {
            let i = choose|i: int| 0 <= i < managers.len() && i < managers.len() && #[trigger] managers[i]@ == a;
            assert(!set.contains(managers[i]@));
        }
    }
}

} // verus!
