//! Registering, claiming and removing vesting accounts.
use crate::vesting::schedule::{
    all_time_ordered, compute_available_amount, granted_sum, schedules_valid,
    some_release_underflows, sum_granted, vested_sum, assert_vesting_schedules, law_vested_within_granted,
};
use crate::vesting::types::{
    VestingAccount, VestingAccountResponse, VestingError, VestingInfo, VestingSchedule,
    VestingState,
};
use vstd::prelude::*;

verus! {

/// A vesting record as plain values: its schedules and its claimed amount.
pub open spec fn info_model(i: VestingInfo) -> (Seq<VestingSchedule>, u128) {
    (i.schedules@, i.released_amount)
}

/// The record stored for a registration: the new schedules first, then those
/// already held, with the claimed amount kept.
pub open spec fn merge_model(
    new_schedules: Seq<VestingSchedule>,
    prior: Option<(Seq<VestingSchedule>, u128)>,
) -> (Seq<VestingSchedule>, u128) {
    match prior {
        Some(p) => (new_schedules + p.0, p.1),
        None => (new_schedules, 0),
    }
}

/// The latest record written for `addr` among `saves`.
pub open spec fn lookup_last(
    saves: Seq<(Seq<char>, (Seq<VestingSchedule>, u128))>,
    addr: Seq<char>,
) -> Option<(Seq<VestingSchedule>, u128)>
    decreases saves.len(),
{
    if saves.len() == 0 {
        None
    } else if saves.last().0 == addr {
        Some(saves.last().1)
    } else {
        lookup_last(saves.drop_last(), addr)
    }
}

/// The records that registering the first `n` accounts writes, in order. An
/// account is merged with the record written for its address earlier in the
/// same batch, or else with the record stored before.
pub open spec fn register_saves(
    accts: Seq<VestingAccount>,
    stored: Seq<Option<VestingInfo>>,
    n: nat,
) -> Seq<(Seq<char>, (Seq<VestingSchedule>, u128))>
    decreases n,
{
    if n == 0 || n > accts.len() {
        seq![]
    } else {
        let prev = register_saves(accts, stored, (n - 1) as nat);
        let a = accts[n - 1];
        let prior = match lookup_last(prev, a.address@) {
            Some(p) => Some(p),
            None => match stored[n - 1] {
                Some(i) => Some(info_model(i)),
                None => None,
            },
        };
        prev.push((a.address@, merge_model(a.schedules@, prior)))
    }
}

/// The amount the first `n` accounts must deposit: what their schedules grant.
pub open spec fn deposit_sum(accts: Seq<VestingAccount>, n: nat) -> nat
    decreases n,
{
    if n == 0 || n > accts.len() {
        0
    } else {
        deposit_sum(accts, (n - 1) as nat) + granted_sum(accts[n - 1].schedules@)
    }
}

/// Registration stops at account `i`: its schedules are refused, or the
/// deposit up to it overflows.
pub open spec fn register_fails_at(accts: Seq<VestingAccount>, i: int) -> bool {
    !schedules_valid(accts[i].schedules@) || deposit_sum(accts, (i + 1) as nat) > u128::MAX
}

/// The first account from `i` on at which registration stops, or the length.
pub open spec fn register_failure_from(accts: Seq<VestingAccount>, i: int) -> int
    decreases accts.len() - i,
{
    if i >= accts.len() || i < 0 {
        accts.len() as int
    } else if register_fails_at(accts, i) {
        i
    } else {
        register_failure_from(accts, i + 1)
    }
}

/// What registering a batch of accounts leaves behind.
#[derive(Debug, PartialEq, Eq)]
pub struct RegisterOutcome {
    /// The records to store, in the order they are written
    pub saved: Vec<VestingAccountResponse>,
    /// The vesting totals after the registration
    pub state: VestingState,
    /// The amount the registered schedules grant
    pub deposited: u128,
}

pub open spec fn saves_model(v: Seq<VestingAccountResponse>) -> Seq<
    (Seq<char>, (Seq<VestingSchedule>, u128)),
> {
    v.map_values(|r: VestingAccountResponse| (r.address@, info_model(r.info)))
}

proof fn lemma_failure_from_skips(accts: Seq<VestingAccount>, i: int)
    requires
        0 <= i <= accts.len(),
        forall|j: int| 0 <= j < i ==> !#[trigger] register_fails_at(accts, j),
    ensures
        register_failure_from(accts, 0) == register_failure_from(accts, i),
    decreases i,
{
    if i > 0 {
        lemma_failure_from_skips(accts, i - 1);
        assert(!register_fails_at(accts, i - 1));
    }
}

proof fn lemma_lookup_last_found(
    m: Seq<(Seq<char>, (Seq<VestingSchedule>, u128))>,
    addr: Seq<char>,
    j: int,
)
    requires
        0 <= j < m.len(),
        m[j].0 == addr,
        forall|k: int| j < k < m.len() ==> #[trigger] m[k].0 != addr,
    ensures
        lookup_last(m, addr) == Some(m[j].1),
    decreases m.len(),
{
    if j < m.len() - 1 {
        let d = m.drop_last();
        assert(m[m.len() - 1].0 != addr);
        assert forall|k: int| j < k < d.len() implies #[trigger] d[k].0 != addr by {
            assert(d[k] == m[k]);
        }
        lemma_lookup_last_found(d, addr, j);
    }
}

proof fn lemma_lookup_last_absent(m: Seq<(Seq<char>, (Seq<VestingSchedule>, u128))>, addr: Seq<char>)
    requires
        forall|k: int| 0 <= k < m.len() ==> #[trigger] m[k].0 != addr,
    ensures
        lookup_last(m, addr) is None,
    decreases m.len(),
{
    if m.len() > 0 {
        let d = m.drop_last();
        assert(m[m.len() - 1].0 != addr);
        assert forall|k: int| 0 <= k < d.len() implies #[trigger] d[k].0 != addr by {
            assert(d[k] == m[k]);
        }
        lemma_lookup_last_absent(d, addr);
    }
}

/// The index of the last record in `saved` for `addr`.
fn find_last(saved: &Vec<VestingAccountResponse>, addr: &String) -> (r: Option<usize>)
    ensures
        match r {
            Some(j) => j < saved@.len() && saved@[j as int].address@ == addr@ && forall|k: int|
                j < k < saved@.len() ==> #[trigger] saved@[k].address@ != addr@,
            None => forall|k: int| 0 <= k < saved@.len() ==> #[trigger] saved@[k].address@ != addr@,
        },
{
    let mut i = saved.len();
    while i > 0
        invariant
            i <= saved@.len(),
            forall|k: int| i <= k < saved@.len() ==> #[trigger] saved@[k].address@ != addr@,
        decreases i,
    {
        if saved[i - 1].address.eq(addr) {
            return Some(i - 1);
        }
        i = i - 1;
    }
    None
}

/// A copy of a list of schedules.
pub fn copy_schedules(v: &Vec<VestingSchedule>) -> (r: Vec<VestingSchedule>)
    ensures
        r@ == v@,
{
    let mut r: Vec<VestingSchedule> = Vec::new();
    let mut i: usize = 0;
    while i < v.len()
        invariant
            i <= v@.len(),
            r@ == v@.take(i as int),
        decreases v@.len() - i,
    {
        r.push(v[i]);
        i = i + 1;
        proof {
            assert(r@ =~= v@.take(i as int));
        }
    }
    proof {
        assert(v@.take(v@.len() as int) =~= v@);
    }
    r
}

/// A copy of a vesting record.
pub fn copy_info(info: &VestingInfo) -> (r: VestingInfo)
    ensures
        info_model(r) == info_model(*info),
{
    VestingInfo { schedules: copy_schedules(&info.schedules), released_amount: info.released_amount }
}

/// Create new vesting schedules. Each account's schedules must be valid, and
/// together they must grant exactly `amount`, the amount received. Each
/// account's record becomes its new schedules followed by those it already
/// had, with its claimed amount kept; `stored[i]` is the record of the i-th
/// account's address before the registration. The total granted grows by
/// `amount`.
pub fn register_vesting_accounts(
    vesting_accounts: &Vec<VestingAccount>,
    stored: &Vec<Option<VestingInfo>>,
    amount: u128,
    state: Option<VestingState>,
) -> (r: Result<RegisterOutcome, VestingError>)
    requires
        stored@.len() == vesting_accounts@.len(),
    ensures
        ({
            let accts = vesting_accounts@;
            let f = register_failure_from(accts, 0);
            let old_state = match state {
                Some(s) => s,
                None => VestingState { total_granted: 0, total_released: 0 },
            };
            &&& f < accts.len() ==> r == Err::<RegisterOutcome, VestingError>(
                if !schedules_valid(accts[f].schedules@) {
                    VestingError::VestingScheduleError(accts[f].address)
                } else {
                    VestingError::Overflow
                },
            )
            &&& (f == accts.len() && deposit_sum(accts, accts.len()) != amount) ==> r == Err::<
                RegisterOutcome,
                VestingError,
            >(VestingError::VestingScheduleAmountError)
            &&& (f == accts.len() && deposit_sum(accts, accts.len()) == amount
                && old_state.total_granted + amount > u128::MAX) ==> r == Err::<
                RegisterOutcome,
                VestingError,
            >(VestingError::Overflow)
            &&& r is Ok <==> (f == accts.len() && deposit_sum(accts, accts.len()) == amount
                && old_state.total_granted + amount <= u128::MAX)
            &&& r matches Ok(o) ==> {
                &&& saves_model(o.saved@) == register_saves(accts, stored@, accts.len())
                &&& o.deposited == amount
                &&& o.state.total_granted == old_state.total_granted + amount
                &&& o.state.total_released == old_state.total_released
            }
        }),
{
    let ghost accts = vesting_accounts@;
    let n = vesting_accounts.len();
    let mut saved: Vec<VestingAccountResponse> = Vec::new();
    let mut to_deposit: u128 = 0;
    let mut i: usize = 0;
    while i < n
        invariant
            n == accts.len(),
            accts == vesting_accounts@,
            stored@.len() == n,
            0 <= i <= n,
            to_deposit == deposit_sum(accts, i as nat),
            forall|j: int| 0 <= j < i ==> !#[trigger] register_fails_at(accts, j),
            saves_model(saved@) == register_saves(accts, stored@, i as nat),
        decreases n - i,
    {
        let account = &vesting_accounts[i];
        match assert_vesting_schedules(&account.address, &account.schedules) {
            Ok(()) => {},
            Err(e) => {
                proof {
                    assert(register_fails_at(accts, i as int));
                    lemma_failure_from_skips(accts, i as int);
                }
                return Err(e);
            },
        }
        let granted = sum_granted(&account.schedules);
        let next = match granted {
            Some(g) => to_deposit.checked_add(g),
            None => None,
        };
        if next.is_none() {
            proof {
                assert(register_fails_at(accts, i as int));
                lemma_failure_from_skips(accts, i as int);
            }
            return Err(VestingError::Overflow);
        }
        to_deposit = next.unwrap();
        let ghost prev_model = saves_model(saved@);
        let prior: Option<VestingInfo> = match find_last(&saved, &account.address) {
            Some(j) => {
                proof {
                    lemma_lookup_last_found(prev_model, account.address@, j as int);
                }
                Some(copy_info(&saved[j].info))
            },
            None => {
                proof {
                    lemma_lookup_last_absent(prev_model, account.address@);
                }
                match &stored[i] {
                    Some(info) => Some(copy_info(info)),
                    None => None,
                }
            },
        };
        let mut schedules = copy_schedules(&account.schedules);
        let released_amount = match prior {
            Some(mut old_info) => {
                schedules.append(&mut old_info.schedules);
                old_info.released_amount
            },
            None => 0,
        };
        saved.push(
            VestingAccountResponse {
                address: account.address.clone(),
                info: VestingInfo { schedules, released_amount },
            },
        );
        proof {
            assert(saves_model(saved@) =~= prev_model.push(
                (accts[i as int].address@, merge_model(
                    accts[i as int].schedules@,
                    match lookup_last(prev_model, accts[i as int].address@) {
                        Some(p) => Some(p),
                        None => match stored@[i as int] {
                            Some(x) => Some(info_model(x)),
                            None => None,
                        },
                    },
                )),
            ));
        }
        i = i + 1;
    }
    proof {
        lemma_failure_from_skips(accts, n as int);
    }
    if to_deposit != amount {
        return Err(VestingError::VestingScheduleAmountError);
    }
    let old_state = match state {
        Some(s) => s,
        None => VestingState::new(),
    };
    match old_state.total_granted.checked_add(to_deposit) {
        Some(total_granted) => Ok(
            RegisterOutcome {
                saved,
                state: VestingState { total_granted, total_released: old_state.total_released },
                deposited: to_deposit,
            },
        ),
        None => Err(VestingError::Overflow),
    }
}


/// What a claim leaves behind.
#[derive(Debug, PartialEq, Eq)]
pub struct ClaimOutcome {
    /// The amount that was available to claim
    pub available_amount: u128,
    /// The amount claimed and to be sent
    pub claim_amount: u128,
    /// The claimant's record after the claim
    pub info: VestingInfo,
    /// The vesting totals after the claim; `None` when nothing was claimed and
    /// they are left as they were
    pub state: Option<VestingState>,
}

/// Claims vested tokens: `amount` of them, or all that is available. What is
/// claimed is added to the claimant's claimed amount and to the total
/// released. An error where the available amount cannot be computed, where
/// more is asked than is available, or where no totals are stored when
/// something is claimed.
pub fn claim(
    vesting_info: VestingInfo,
    state: Option<VestingState>,
    current_time: u64,
    amount: Option<u128>,
) -> (r: Result<ClaimOutcome, VestingError>)
    requires
        all_time_ordered(current_time, vesting_info.schedules@),
    ensures
        ({
            let ss = vesting_info.schedules@;
            let computable = !some_release_underflows(current_time, ss) && vested_sum(
                current_time,
                ss,
            ) <= u128::MAX && vesting_info.released_amount <= vested_sum(current_time, ss);
            let available = vested_sum(current_time, ss) - vesting_info.released_amount;
            let wanted = match amount {
                Some(a) => a as int,
                None => available,
            };
            &&& !computable ==> r == Err::<ClaimOutcome, VestingError>(VestingError::Overflow)
            &&& (computable && wanted > available) ==> r == Err::<ClaimOutcome, VestingError>(
                VestingError::AmountIsNotAvailable,
            )
            &&& (computable && wanted <= available && wanted > 0 && state is None) ==> r == Err::<
                ClaimOutcome,
                VestingError,
            >(VestingError::AmountIsNotAvailable)
            &&& (computable && wanted <= available && wanted > 0 && state is Some
                && state.unwrap().total_released + wanted > u128::MAX) ==> r == Err::<
                ClaimOutcome,
                VestingError,
            >(VestingError::Overflow)
            &&& r is Ok <==> (computable && wanted <= available && (wanted == 0 || (
            state is Some && state.unwrap().total_released + wanted <= u128::MAX)))
            &&& r matches Ok(o) ==> {
                &&& o.available_amount == available
                &&& o.claim_amount == wanted
                &&& o.info.schedules@ == ss
                &&& o.info.released_amount == vesting_info.released_amount + wanted
                &&& wanted == 0 ==> o.state is None
                &&& wanted > 0 ==> o.state == Some(
                    VestingState {
                        total_granted: state.unwrap().total_granted,
                        total_released: (state.unwrap().total_released + wanted) as u128,
                    },
                )
            }
        }),
{
    let available_amount = match compute_available_amount(current_time, &vesting_info) {
        Ok(v) => v,
        Err(_) => {
            return Err(VestingError::Overflow);
        },
    };
    let claim_amount = match amount {
        Some(a) => {
            if a > available_amount {
                return Err(VestingError::AmountIsNotAvailable);
            }
            a
        },
        None => available_amount,
    };
    if claim_amount == 0 {
        return Ok(ClaimOutcome { available_amount, claim_amount, info: vesting_info, state: None });
    }
    let mut info = vesting_info;
    info.released_amount = info.released_amount + claim_amount;
    let st = match state {
        Some(st) => st,
        None => {
            return Err(VestingError::AmountIsNotAvailable);
        },
    };
    match st.total_released.checked_add(claim_amount) {
        Some(total_released) => Ok(
            ClaimOutcome {
                available_amount,
                claim_amount,
                info,
                state: Some(VestingState { total_granted: st.total_granted, total_released }),
            },
        ),
        None => Err(VestingError::Overflow),
    }
}

proof fn lemma_register_saves_len(accts: Seq<VestingAccount>, stored: Seq<Option<VestingInfo>>, n: nat)
    requires
        n <= accts.len(),
    ensures
        register_saves(accts, stored, n).len() == n,
    decreases n,
{
    if n > 0 {
        lemma_register_saves_len(accts, stored, (n - 1) as nat);
    }
}

proof fn lemma_register_saves_prefix(accts: Seq<VestingAccount>, stored: Seq<Option<VestingInfo>>, n: nat, i: int)
    requires
        n <= accts.len(),
        0 <= i < n,
    ensures
        register_saves(accts, stored, n)[i] == register_saves(accts, stored, (i + 1) as nat)[i],
        register_saves(accts, stored, n)[i].0 == accts[i].address@,
    decreases n,
{
    lemma_register_saves_len(accts, stored, (n - 1) as nat);
    if i < n - 1 {
        lemma_register_saves_prefix(accts, stored, (n - 1) as nat, i);
    }
}

/// Registration never changes what an account has claimed. Where a
/// registration succeeded and wrote the records `saved` for the accounts
/// `accts` (`stored[i]` being the record of the i-th account's address
/// before), the i-th record is written for the i-th account's address, with
/// its new schedules first:
/// - for an address not earlier in the batch, followed by the schedules of
///   the record stored before, whose claimed amount it keeps (nothing claimed
///   for an address without a record);
/// - for an address registered earlier in the batch, followed by the
///   schedules of the latest record written for it, whose claimed amount it
///   keeps.
pub proof fn law_register_keeps_claimed(
    accts: Seq<VestingAccount>,
    stored: Seq<Option<VestingInfo>>,
    saved: Seq<VestingAccountResponse>,
    i: int,
)
    requires
        stored.len() == accts.len(),
        saves_model(saved) == register_saves(accts, stored, accts.len()),
        0 <= i < accts.len(),
    ensures
        saved.len() == accts.len(),
        saved[i].address@ == accts[i].address@,
        (forall|j: int| 0 <= j < i ==> #[trigger] accts[j].address@ != accts[i].address@) ==> match stored[i] {
            Some(info) => saved[i].info.released_amount == info.released_amount && saved[i].info.schedules@
                == accts[i].schedules@ + info.schedules@,
            None => saved[i].info.released_amount == 0 && saved[i].info.schedules@ == accts[i].schedules@,
        },
        forall|j: int|
            0 <= j < i && #[trigger] accts[j].address@ == accts[i].address@ && (forall|k: int|
                j < k < i ==> #[trigger] accts[k].address@ != accts[i].address@) ==> saved[i].info.released_amount
                == saved[j].info.released_amount && saved[i].info.schedules@ == accts[i].schedules@
                + saved[j].info.schedules@,
{
    let n = accts.len();
    let m = register_saves(accts, stored, n);
    lemma_register_saves_len(accts, stored, n);
    assert(saves_model(saved).len() == saved.len());
    assert(saved.len() == n);
    lemma_register_saves_prefix(accts, stored, n, i);
    let prev = register_saves(accts, stored, i as nat);
    lemma_register_saves_len(accts, stored, i as nat);
    assert(register_saves(accts, stored, (i + 1) as nat) == prev.push(
        (accts[i].address@, merge_model(accts[i].schedules@, match lookup_last(prev, accts[i].address@) {
            Some(p) => Some(p),
            None => match stored[i] {
                Some(x) => Some(info_model(x)),
                None => None,
            },
        })),
    ));
    assert(m[i] == saves_model(saved)[i]);
    assert(saves_model(saved)[i] == (saved[i].address@, info_model(saved[i].info)));
    assert forall|k: int| 0 <= k < i implies #[trigger] prev[k] == m[k] by {
        lemma_register_saves_prefix(accts, stored, n, k);
        lemma_register_saves_prefix(accts, stored, i as nat, k);
    }
    if forall|j: int| 0 <= j < i ==> #[trigger] accts[j].address@ != accts[i].address@ {
        assert forall|k: int| 0 <= k < prev.len() implies #[trigger] prev[k].0 != accts[i].address@ by {
            lemma_register_saves_prefix(accts, stored, i as nat, k);
            assert(accts[k].address@ != accts[i].address@);
        }
        lemma_lookup_last_absent(prev, accts[i].address@);
    }
    assert forall|j: int|
        0 <= j < i && #[trigger] accts[j].address@ == accts[i].address@ && (forall|k: int|
            j < k < i ==> #[trigger] accts[k].address@ != accts[i].address@) implies saved[i].info.released_amount
        == saved[j].info.released_amount && saved[i].info.schedules@ == accts[i].schedules@
        + saved[j].info.schedules@ by {
        lemma_register_saves_prefix(accts, stored, i as nat, j);
        assert forall|k: int| j < k < prev.len() implies #[trigger] prev[k].0 != accts[i].address@ by {
            lemma_register_saves_prefix(accts, stored, i as nat, k);
            assert(accts[k].address@ != accts[i].address@);
        }
        lemma_lookup_last_found(prev, accts[i].address@, j);
        lemma_register_saves_prefix(accts, stored, n, j);
        assert(prev[j] == m[j]);
        assert(m[j] == saves_model(saved)[j]);
        assert(saves_model(saved)[j] == (saved[j].address@, info_model(saved[j].info)));
    }
}

/// A claim takes what it claims out of what is available: after claiming `c`
/// of the amount `a` available at time `t`, the same schedules have `a - c`
/// available at `t`.
pub proof fn law_claim_reduces_available(
    t: u64,
    ss: Seq<VestingSchedule>,
    released: u128,
    c: u128,
)
    requires
        released + c <= vested_sum(t, ss),
    ensures
        vested_sum(t, ss) - (released + c) == (vested_sum(t, ss) - released) - c,
        0 <= vested_sum(t, ss) - (released + c),
{
}

/// Claims never take more than the schedules grant: where valid schedules
/// have vested at least what was claimed before and `c` more, the total
/// claimed stays within what they grant.
pub proof fn law_claims_within_granted(t: u64, ss: Seq<VestingSchedule>, released: u128, c: u128)
    requires
        schedules_valid(ss),
        released + c <= vested_sum(t, ss),
    ensures
        released + c <= granted_sum(ss),
{
    law_vested_within_granted(t, ss);
}

/// Whether the i-th address of a removal batch still has a record when it is
/// reached: it had one before, and no earlier entry of the batch removed it.
pub open spec fn removal_present(
    accts: Seq<String>,
    stored: Seq<Option<VestingInfo>>,
    i: int,
) -> bool {
    stored[i] is Some && !exists|j: int| 0 <= j < i && #[trigger] accts[j]@ == accts[i]@
}

/// Removing the first `n` addresses of a batch: the amounts clawed back per
/// removed address, in order, and the totals after, or the error met.
pub open spec fn removal_fold(
    accts: Seq<String>,
    stored: Seq<Option<VestingInfo>>,
    state: Option<VestingState>,
    n: nat,
) -> Result<(Seq<(Seq<char>, u128)>, Option<VestingState>), VestingError>
    decreases n,
{
    if n == 0 || n > accts.len() {
        Ok((seq![], state))
    } else {
        match removal_fold(accts, stored, state, (n - 1) as nat) {
            Err(e) => Err(e),
            Ok(acc) => {
                let i = n - 1;
                if !removal_present(accts, stored, i) {
                    Ok(acc)
                } else {
                    let info = stored[i].unwrap();
                    let g = granted_sum(info.schedules@);
                    let rel = info.released_amount;
                    if g > u128::MAX || rel > g {
                        Err(VestingError::Overflow)
                    } else {
                        match acc.1 {
                            None => Err(VestingError::AmountIsNotAvailable),
                            Some(st) => if st.total_granted < g || st.total_released < rel {
                                Err(VestingError::Overflow)
                            } else {
                                Ok(
                                    (
                                        acc.0.push((accts[i]@, (g - rel) as u128)),
                                        Some(
                                            VestingState {
                                                total_granted: (st.total_granted - g) as u128,
                                                total_released: (st.total_released - rel) as u128,
                                            },
                                        ),
                                    ),
                                )
                            },
                        }
                    }
                }
            },
        }
    }
}

proof fn lemma_removal_fold_err_persists(
    accts: Seq<String>,
    stored: Seq<Option<VestingInfo>>,
    state: Option<VestingState>,
    k: nat,
    m: nat,
)
    requires
        k <= m <= accts.len(),
        1 <= k,
        removal_fold(accts, stored, state, k) is Err,
    ensures
        removal_fold(accts, stored, state, m) == removal_fold(accts, stored, state, k),
    decreases m - k,
{
    if m > k {
        lemma_removal_fold_err_persists(accts, stored, state, k, (m - 1) as nat);
    }
}

/// What removing vesting accounts leaves behind.
#[derive(Debug, PartialEq, Eq)]
pub struct RemovalOutcome {
    /// Each removed address and the amount clawed back from it, in order
    pub clawbacks: Vec<(String, u128)>,
    /// The vesting totals after the removals
    pub state: Option<VestingState>,
}

pub open spec fn clawbacks_model(v: Seq<(String, u128)>) -> Seq<(Seq<char>, u128)> {
    v.map_values(|p: (String, u128)| (p.0@, p.1))
}

/// Removes vesting accounts: only the owner may. For each address that has a
/// record, what it was granted and has not claimed is clawed back, and the
/// totals forget its grant and its claims; `stored[i]` is the record of the
/// i-th address before the removal.
pub fn remove_vesting_accounts(
    sender: &String,
    owner: &String,
    vesting_accounts: &Vec<String>,
    stored: &Vec<Option<VestingInfo>>,
    state: Option<VestingState>,
) -> (r: Result<RemovalOutcome, VestingError>)
    requires
        stored@.len() == vesting_accounts@.len(),
    ensures
        sender@ != owner@ ==> r == Err::<RemovalOutcome, VestingError>(VestingError::Unauthorized),
        sender@ == owner@ ==> match removal_fold(
            vesting_accounts@,
            stored@,
            state,
            vesting_accounts@.len(),
        ) {
            Ok(m) => r is Ok && clawbacks_model(r.unwrap().clawbacks@) == m.0 && r.unwrap().state == m.1,
            Err(e) => r == Err::<RemovalOutcome, VestingError>(e),
        },
{
    if !sender.eq(owner) {
        return Err(VestingError::Unauthorized);
    }
    let ghost accts = vesting_accounts@;
    let n = vesting_accounts.len();
    let mut clawbacks: Vec<(String, u128)> = Vec::new();
    let mut st = state;
    let mut i: usize = 0;
    proof {
        assert(clawbacks_model(clawbacks@) =~= Seq::<(Seq<char>, u128)>::empty());
    }
    while i < n
        invariant
            sender@ == owner@,
            n == accts.len(),
            accts == vesting_accounts@,
            stored@.len() == n,
            0 <= i <= n,
            removal_fold(accts, stored@, state, i as nat) == Ok::<
                (Seq<(Seq<char>, u128)>, Option<VestingState>),
                VestingError,
            >((clawbacks_model(clawbacks@), st)),
        decreases n - i,
    {
        let mut seen = false;
        let mut j: usize = 0;
        while j < i
            invariant
                j <= i,
                i < n,
                n == accts.len(),
                accts == vesting_accounts@,
                seen == exists|k: int| 0 <= k < j && #[trigger] accts[k]@ == accts[i as int]@,
            decreases i - j,
        {
            if vesting_accounts[j].eq(&vesting_accounts[i]) {
                seen = true;
            }
            j = j + 1;
        }
        if !seen {
            match &stored[i] {
                Some(info) => {
                    let granted = match sum_granted(&info.schedules) {
                        Some(g) => g,
                        None => {
                            proof {
                                lemma_removal_fold_err_persists(accts, stored@, state, (i + 1) as nat, n as nat);
                            }
                            return Err(VestingError::Overflow);
                        },
                    };
                    let claw_back = match granted.checked_sub(info.released_amount) {
                        Some(c) => c,
                        None => {
                            proof {
                                lemma_removal_fold_err_persists(accts, stored@, state, (i + 1) as nat, n as nat);
                            }
                            return Err(VestingError::Overflow);
                        },
                    };
                    let cur = match st {
                        Some(c) => c,
                        None => {
                            proof {
                                lemma_removal_fold_err_persists(accts, stored@, state, (i + 1) as nat, n as nat);
                            }
                            return Err(VestingError::AmountIsNotAvailable);
                        },
                    };
                    let total_granted = match cur.total_granted.checked_sub(granted) {
                        Some(v) => v,
                        None => {
                            proof {
                                lemma_removal_fold_err_persists(accts, stored@, state, (i + 1) as nat, n as nat);
                            }
                            return Err(VestingError::Overflow);
                        },
                    };
                    let total_released = match cur.total_released.checked_sub(
                        info.released_amount,
                    ) {
                        Some(v) => v,
                        None => {
                            proof {
                                lemma_removal_fold_err_persists(accts, stored@, state, (i + 1) as nat, n as nat);
                            }
                            return Err(VestingError::Overflow);
                        },
                    };
                    let ghost prev = clawbacks@;
                    clawbacks.push((vesting_accounts[i].clone(), claw_back));
                    st = Some(VestingState { total_granted, total_released });
                    proof {
                        assert(clawbacks_model(clawbacks@) =~= clawbacks_model(prev).push(
                            (accts[i as int]@, claw_back),
                        ));
                    }
                },
                None => {},
            }
        }
        i = i + 1;
    }
    Ok(RemovalOutcome { clawbacks, state: st })
}

} // verus!
