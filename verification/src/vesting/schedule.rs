//! The amounts that vesting schedules release over time.
use crate::numeric::{
    lemma_scaled_fraction_bounds, lemma_scaled_fraction_monotone, lemma_whole_fraction,
    u128_checked_multiply_ratio, MathError,
};
use crate::vesting::types::{VestingError, VestingInfo, VestingSchedule, VestingSchedulePoint};
use vstd::prelude::*;

verus! {

pub open spec fn min_time(a: u64, b: u64) -> int {
    if a <= b {
        a as int
    } else {
        b as int
    }
}

/// Whether the schedule has started at time `t`.
pub open spec fn is_started(t: u64, s: VestingSchedule) -> bool {
    s.start_point.time <= t
}

/// The seconds of the release period that have passed at `t`.
pub open spec fn passed_time(t: u64, e: VestingSchedulePoint, s: VestingSchedule) -> int {
    min_time(t, e.time) - s.start_point.time
}

/// The length of the release period.
pub open spec fn release_period(e: VestingSchedulePoint, s: VestingSchedule) -> int {
    e.time - s.start_point.time
}

/// Whether the linear release of a started schedule is running at `t`.
pub open spec fn is_releasing(t: u64, s: VestingSchedule) -> bool {
    match s.end_point {
        Some(e) => passed_time(t, e, s) != 0 && release_period(e, s) != 0,
        None => false,
    }
}

/// The part of the schedule released linearly by `t`, floored.
pub open spec fn linear_release(t: u64, s: VestingSchedule) -> int {
    match s.end_point {
        Some(e) => if is_releasing(t, s) {
            (passed_time(t, e, s) * (e.amount - s.start_point.amount)) / release_period(e, s)
        } else {
            0
        },
        None => 0,
    }
}

/// The amount a schedule has vested at `t`.
pub open spec fn vested_amount(t: u64, s: VestingSchedule) -> int {
    if is_started(t, s) {
        s.start_point.amount + linear_release(t, s)
    } else {
        0
    }
}

/// A started, releasing schedule whose end amount is below its start amount:
/// its release cannot be computed.
pub open spec fn release_underflows(t: u64, s: VestingSchedule) -> bool {
    is_started(t, s) && is_releasing(t, s) && match s.end_point {
        Some(e) => e.amount < s.start_point.amount,
        None => false,
    }
}

/// A started schedule does not end before it starts (else its time
/// arithmetic would underflow).
pub open spec fn time_ordered(t: u64, s: VestingSchedule) -> bool {
    is_started(t, s) ==> match s.end_point {
        Some(e) => s.start_point.time <= e.time,
        None => true,
    }
}

pub open spec fn all_time_ordered(t: u64, ss: Seq<VestingSchedule>) -> bool {
    forall|i: int| 0 <= i < ss.len() ==> #[trigger] time_ordered(t, ss[i])
}

pub open spec fn some_release_underflows(t: u64, ss: Seq<VestingSchedule>) -> bool {
    exists|i: int| 0 <= i < ss.len() && #[trigger] release_underflows(t, ss[i])
}

/// The amount vested at `t` over all the schedules.
pub open spec fn vested_sum(t: u64, ss: Seq<VestingSchedule>) -> int
    decreases ss.len(),
{
    if ss.len() == 0 {
        0
    } else {
        vested_sum(t, ss.drop_last()) + vested_amount(t, ss.last())
    }
}

/// The amount a schedule grants in total.
pub open spec fn granted_amount(s: VestingSchedule) -> nat {
    match s.end_point {
        Some(e) => e.amount as nat,
        None => s.start_point.amount as nat,
    }
}

/// The amount granted over all the schedules.
pub open spec fn granted_sum(ss: Seq<VestingSchedule>) -> nat
    decreases ss.len(),
{
    if ss.len() == 0 {
        0
    } else {
        granted_sum(ss.drop_last()) + granted_amount(ss.last())
    }
}

/// The end amounts over the schedules that have an end point.
pub open spec fn end_amount_sum(ss: Seq<VestingSchedule>) -> nat
    decreases ss.len(),
{
    if ss.len() == 0 {
        0
    } else {
        end_amount_sum(ss.drop_last()) + match ss.last().end_point {
            Some(e) => e.amount as nat,
            None => 0,
        }
    }
}

/// A schedule as registration accepts it: where it has an end point, the end
/// lies strictly after the start in both time and amount, or at the start
/// with the same amount.
pub open spec fn schedule_valid(s: VestingSchedule) -> bool {
    match s.end_point {
        Some(e) => (s.start_point.time < e.time && s.start_point.amount < e.amount) || (
        s.start_point.time == e.time && s.start_point.amount == e.amount),
        None => true,
    }
}

pub open spec fn schedules_valid(ss: Seq<VestingSchedule>) -> bool {
    forall|i: int| 0 <= i < ss.len() ==> #[trigger] schedule_valid(ss[i])
}

/// A schedule without underflow vests a nonnegative amount, and no more than
/// its start amount plus the growth up to its end amount.
pub proof fn lemma_vested_amount_bounds(t: u64, s: VestingSchedule)
    requires
        time_ordered(t, s),
        !release_underflows(t, s),
    ensures
        0 <= vested_amount(t, s),
        is_started(t, s) ==> 0 <= linear_release(t, s),
        is_started(t, s) ==> vested_amount(t, s) >= s.start_point.amount,
        is_started(t, s) && is_releasing(t, s) ==> match s.end_point {
            Some(e) => linear_release(t, s) <= e.amount - s.start_point.amount,
            None => true,
        },
{
    if is_started(t, s) {
        if let Some(e) = s.end_point {
            if is_releasing(t, s) {
                lemma_scaled_fraction_bounds(
                    passed_time(t, e, s),
                    e.amount - s.start_point.amount,
                    release_period(e, s),
                );
            }
        }
    }
}

/// The vested sum of a prefix is at most the vested sum of the whole, when no
/// schedule underflows.
pub proof fn lemma_vested_prefix_le(t: u64, ss: Seq<VestingSchedule>, k: int)
    requires
        0 <= k <= ss.len(),
        all_time_ordered(t, ss),
        !some_release_underflows(t, ss),
    ensures
        vested_sum(t, ss.take(k)) <= vested_sum(t, ss),
    decreases ss.len(),
{
    if k == ss.len() {
        assert(ss.take(k) =~= ss);
    } else {
        let d = ss.drop_last();
        assert(forall|i: int| 0 <= i < d.len() ==> d[i] == ss[i]);
        assert(all_time_ordered(t, d));
        assert(!some_release_underflows(t, d)) by {
            if some_release_underflows(t, d) {
                let i = choose|i: int| 0 <= i < d.len() && #[trigger] release_underflows(t, d[i]);
                assert(release_underflows(t, ss[i]));
            }
        }
        lemma_vested_prefix_le(t, d, k);
        assert(d.take(k) =~= ss.take(k));
        assert(time_ordered(t, ss[ss.len() - 1]));
        assert(!release_underflows(t, ss[ss.len() - 1]));
        lemma_vested_amount_bounds(t, ss.last());
    }
}

/// A schedule, with the same start and end points, as an exact copy.
fn schedule_at(v: &Vec<VestingSchedule>, i: usize) -> (r: VestingSchedule)
    requires
        i < v.len(),
    ensures
        r == v@[i as int],
{
    v[i]
}

/// Computes the amount of vested and yet unclaimed tokens for a specific
/// vesting recipient at `current_time`. Schedules that start later than
/// `current_time` are omitted. An error where the amounts overflow, where a
/// releasing schedule ends below its start amount, or where more was claimed
/// than has vested.
pub fn compute_available_amount(current_time: u64, vesting_info: &VestingInfo) -> (r: Result<
    u128,
    MathError,
>)
    requires
        all_time_ordered(current_time, vesting_info.schedules@),
    ensures
        r is Ok <==> (!some_release_underflows(current_time, vesting_info.schedules@)
            && vested_sum(current_time, vesting_info.schedules@) <= u128::MAX
            && vesting_info.released_amount <= vested_sum(current_time, vesting_info.schedules@)),
        r matches Ok(v) ==> v == vested_sum(current_time, vesting_info.schedules@)
            - vesting_info.released_amount,
{
    let ghost ss = vesting_info.schedules@;
    let n = vesting_info.schedules.len();
    let mut available_amount: u128 = 0;
    let mut i: usize = 0;
    while i < n
        invariant
            n == ss.len(),
            ss == vesting_info.schedules@,
            0 <= i <= n,
            all_time_ordered(current_time, ss),
            available_amount == vested_sum(current_time, ss.take(i as int)),
            forall|j: int| 0 <= j < i ==> !#[trigger] release_underflows(current_time, ss[j]),
        decreases n - i,
    {
        let sch = schedule_at(&vesting_info.schedules, i);
        proof {
            assert(ss.take(i + 1).drop_last() =~= ss.take(i as int));
            assert(ss.take(i + 1).last() == ss[i as int]);
            assert(time_ordered(current_time, ss[i as int]));
        }
        if sch.start_point.time <= current_time {
            let with_start = available_amount.checked_add(sch.start_point.amount);
            if with_start.is_none() {
                proof {
                    if !some_release_underflows(current_time, ss) {
                        assert(!release_underflows(current_time, ss[i as int]));
                        lemma_vested_amount_bounds(current_time, sch);
                        lemma_vested_prefix_le(current_time, ss, i + 1);
                    }
                }
                return Err(MathError::Overflow);
            }
            let mut acc = with_start.unwrap();
            match sch.end_point {
                Some(end_point) => {
                    let passed_time: u64 = if current_time <= end_point.time {
                        current_time - sch.start_point.time
                    } else {
                        end_point.time - sch.start_point.time
                    };
                    let time_period: u64 = end_point.time - sch.start_point.time;
                    if passed_time != 0 && time_period != 0 {
                        if end_point.amount < sch.start_point.amount {
                            proof {
                                assert(release_underflows(current_time, ss[i as int]));
                            }
                            return Err(MathError::Overflow);
                        }
                        let diff = end_point.amount - sch.start_point.amount;
                        proof {
                            lemma_scaled_fraction_bounds(
                                passed_time as int,
                                diff as int,
                                time_period as int,
                            );
                        }
                        let release = u128_checked_multiply_ratio(
                            passed_time as u128,
                            diff,
                            time_period as u128,
                        );
                        let release_amount = match release {
                            Some(v) => v,
                            None => {
                                proof {
                                    assert(false);
                                }
                                return Err(MathError::Overflow);
                            },
                        };
                        let total = acc.checked_add(release_amount);
                        if total.is_none() {
                            proof {
                                if !some_release_underflows(current_time, ss) {
                                    lemma_vested_prefix_le(current_time, ss, i + 1);
                                }
                            }
                            return Err(MathError::Overflow);
                        }
                        acc = total.unwrap();
                    }
                },
                None => {},
            }
            available_amount = acc;
        }
        proof {
            assert(!release_underflows(current_time, ss[i as int]));
        }
        i = i + 1;
    }
    proof {
        assert(ss.take(n as int) =~= ss);
        assert(!some_release_underflows(current_time, ss));
    }
    match available_amount.checked_sub(vesting_info.released_amount) {
        Some(v) => Ok(v),
        None => Err(MathError::Overflow),
    }
}


/// The total amount the schedules grant, when it fits in 128 bits.
pub fn sum_granted(schedules: &Vec<VestingSchedule>) -> (r: Option<u128>)
    ensures
        r is Some <==> granted_sum(schedules@) <= u128::MAX,
        r matches Some(v) ==> v == granted_sum(schedules@),
{
    let ghost ss = schedules@;
    let n = schedules.len();
    let mut total: u128 = 0;
    let mut i: usize = 0;
    while i < n
        invariant
            n == ss.len(),
            ss == schedules@,
            0 <= i <= n,
            total == granted_sum(ss.take(i as int)),
        decreases n - i,
    {
        let sch = schedule_at(schedules, i);
        proof {
            assert(ss.take(i + 1).drop_last() =~= ss.take(i as int));
            assert(ss.take(i + 1).last() == ss[i as int]);
        }
        let amount = match sch.end_point {
            Some(end_point) => end_point.amount,
            None => sch.start_point.amount,
        };
        match total.checked_add(amount) {
            Some(v) => {
                total = v;
            },
            None => {
                proof {
                    lemma_granted_prefix_le(ss, i + 1);
                }
                return None;
            },
        }
        i = i + 1;
    }
    proof {
        assert(ss.take(n as int) =~= ss);
    }
    Some(total)
}

/// The granted sum of a prefix is at most the granted sum of the whole.
pub proof fn lemma_granted_prefix_le(ss: Seq<VestingSchedule>, k: int)
    requires
        0 <= k <= ss.len(),
    ensures
        granted_sum(ss.take(k)) <= granted_sum(ss),
    decreases ss.len(),
{
    if k == ss.len() {
        assert(ss.take(k) =~= ss);
    } else {
        let d = ss.drop_last();
        lemma_granted_prefix_le(d, k);
        assert(d.take(k) =~= ss.take(k));
    }
}

/// The end amounts of a prefix add up to at most those of the whole.
pub proof fn lemma_end_amount_prefix_le(ss: Seq<VestingSchedule>, k: int)
    requires
        0 <= k <= ss.len(),
    ensures
        end_amount_sum(ss.take(k)) <= end_amount_sum(ss),
    decreases ss.len(),
{
    if k == ss.len() {
        assert(ss.take(k) =~= ss);
    } else {
        let d = ss.drop_last();
        lemma_end_amount_prefix_le(d, k);
        assert(d.take(k) =~= ss.take(k));
    }
}

/// Computes the amount of granted and yet unclaimed tokens of a vesting
/// record, whether vested or not: the total the schedules grant less what was
/// claimed. An error where the total overflows or the claims exceed it.
pub fn compute_unclaimed_amount(vesting_info: &VestingInfo) -> (r: Result<u128, MathError>)
    ensures
        r is Ok <==> (granted_sum(vesting_info.schedules@) <= u128::MAX
            && vesting_info.released_amount <= granted_sum(vesting_info.schedules@)),
        r matches Ok(v) ==> v == granted_sum(vesting_info.schedules@)
            - vesting_info.released_amount,
{
    match sum_granted(&vesting_info.schedules) {
        Some(total) => match total.checked_sub(vesting_info.released_amount) {
            Some(v) => Ok(v),
            None => Err(MathError::Overflow),
        },
        None => Err(MathError::Overflow),
    }
}

/// The share of an account in the pooled liquidity: the end amounts of its
/// schedules that have an end point, less what it has claimed.
pub fn compute_share(vesting_info: &VestingInfo) -> (r: Result<u128, MathError>)
    ensures
        r is Ok <==> (end_amount_sum(vesting_info.schedules@) <= u128::MAX
            && vesting_info.released_amount <= end_amount_sum(vesting_info.schedules@)),
        r matches Ok(v) ==> v == end_amount_sum(vesting_info.schedules@)
            - vesting_info.released_amount,
{
    let ghost ss = vesting_info.schedules@;
    let n = vesting_info.schedules.len();
    let mut total: u128 = 0;
    let mut i: usize = 0;
    while i < n
        invariant
            n == ss.len(),
            ss == vesting_info.schedules@,
            0 <= i <= n,
            total == end_amount_sum(ss.take(i as int)),
        decreases n - i,
    {
        let sch = schedule_at(&vesting_info.schedules, i);
        proof {
            assert(ss.take(i + 1).drop_last() =~= ss.take(i as int));
            assert(ss.take(i + 1).last() == ss[i as int]);
        }
        match sch.end_point {
            Some(end_point) => match total.checked_add(end_point.amount) {
                Some(v) => {
                    total = v;
                },
                None => {
                    proof {
                        lemma_end_amount_prefix_le(ss, i + 1);
                    }
                    return Err(MathError::Overflow);
                },
            },
            None => {},
        }
        i = i + 1;
    }
    proof {
        assert(ss.take(n as int) =~= ss);
    }
    match total.checked_sub(vesting_info.released_amount) {
        Some(v) => Ok(v),
        None => Err(MathError::Overflow),
    }
}

/// Asserts the validity of a list of vesting schedules: each schedule with an
/// end point must end strictly later, and with a strictly larger amount, than
/// it starts, or end at its start with its start amount. The error names
/// `addr`.
pub fn assert_vesting_schedules(addr: &String, vesting_schedules: &Vec<VestingSchedule>) -> (r:
    Result<(), VestingError>)
    ensures
        r is Ok <==> schedules_valid(vesting_schedules@),
        r matches Err(e) ==> e == VestingError::VestingScheduleError(*addr),
{
    let n = vesting_schedules.len();
    let mut i: usize = 0;
    while i < n
        invariant
            n == vesting_schedules@.len(),
            0 <= i <= n,
            forall|j: int| 0 <= j < i ==> #[trigger] schedule_valid(vesting_schedules@[j]),
        decreases n - i,
    {
        let sch = schedule_at(vesting_schedules, i);
        match sch.end_point {
            Some(end_point) => {
                if !((sch.start_point.time < end_point.time && sch.start_point.amount
                    < end_point.amount) || (sch.start_point.time == end_point.time
                    && sch.start_point.amount == end_point.amount)) {
                    proof {
                        assert(!schedule_valid(vesting_schedules@[i as int]));
                    }
                    return Err(VestingError::VestingScheduleError(addr.clone()));
                }
            },
            None => {},
        }
        i = i + 1;
    }
    Ok(())
}

/// Schedules that registration accepts can be evaluated at any time: each
/// started one ends no earlier than it starts, and none releases less than
/// nothing, as computing what is available asks.
pub proof fn law_registered_schedules_computable(t: u64, ss: Seq<VestingSchedule>)
    requires
        schedules_valid(ss),
    ensures
        all_time_ordered(t, ss),
        !some_release_underflows(t, ss),
{
    assert forall|i: int| 0 <= i < ss.len() implies #[trigger] time_ordered(t, ss[i]) by {
        assert(schedule_valid(ss[i]));
    }
    if some_release_underflows(t, ss) {
        let i = choose|i: int| 0 <= i < ss.len() && #[trigger] release_underflows(t, ss[i]);
        assert(schedule_valid(ss[i]));
    }
}

proof fn lemma_vested_amount_monotone(t1: u64, t2: u64, s: VestingSchedule)
    requires
        t1 <= t2,
        time_ordered(t2, s),
        !release_underflows(t2, s),
    ensures
        vested_amount(t1, s) <= vested_amount(t2, s),
{
    lemma_vested_amount_bounds(t2, s);
    if is_started(t1, s) {
        if let Some(e) = s.end_point {
            if is_releasing(t1, s) {
                lemma_scaled_fraction_monotone(
                    passed_time(t1, e, s),
                    passed_time(t2, e, s),
                    e.amount - s.start_point.amount,
                    release_period(e, s),
                );
            }
        }
    }
}

/// Vesting never goes backwards: over the same schedules, the amount vested at
/// an earlier time is at most the amount vested at a later time.
pub proof fn law_vested_monotone_in_time(t1: u64, t2: u64, ss: Seq<VestingSchedule>)
    requires
        t1 <= t2,
        all_time_ordered(t2, ss),
        !some_release_underflows(t2, ss),
    ensures
        all_time_ordered(t1, ss),
        !some_release_underflows(t1, ss),
        vested_sum(t1, ss) <= vested_sum(t2, ss),
    decreases ss.len(),
{
    assert forall|i: int| 0 <= i < ss.len() implies #[trigger] time_ordered(t1, ss[i]) by {
        assert(time_ordered(t2, ss[i]));
    }
    if some_release_underflows(t1, ss) {
        let i = choose|i: int| 0 <= i < ss.len() && #[trigger] release_underflows(t1, ss[i]);
        assert(time_ordered(t2, ss[i]));
        assert(release_underflows(t2, ss[i]));
    }
    if ss.len() > 0 {
        let d = ss.drop_last();
        assert(forall|i: int| 0 <= i < d.len() ==> d[i] == ss[i]);
        assert(all_time_ordered(t2, d));
        assert(!some_release_underflows(t2, d)) by {
            if some_release_underflows(t2, d) {
                let i = choose|i: int| 0 <= i < d.len() && #[trigger] release_underflows(t2, d[i]);
                assert(release_underflows(t2, ss[i]));
            }
        }
        law_vested_monotone_in_time(t1, t2, d);
        assert(time_ordered(t2, ss[ss.len() - 1]));
        assert(!release_underflows(t2, ss[ss.len() - 1]));
        lemma_vested_amount_monotone(t1, t2, ss.last());
    }
}

proof fn lemma_vested_within_granted(t: u64, s: VestingSchedule)
    requires
        schedule_valid(s),
    ensures
        0 <= vested_amount(t, s) <= granted_amount(s),
{
    lemma_vested_amount_bounds(t, s);
}

/// What valid schedules have vested is never more than what they grant.
pub proof fn law_vested_within_granted(t: u64, ss: Seq<VestingSchedule>)
    requires
        schedules_valid(ss),
    ensures
        0 <= vested_sum(t, ss) <= granted_sum(ss),
    decreases ss.len(),
{
    if ss.len() > 0 {
        let d = ss.drop_last();
        assert(forall|i: int| 0 <= i < d.len() ==> d[i] == ss[i]);
        assert(schedules_valid(d));
        law_vested_within_granted(t, d);
        assert(schedule_valid(ss[ss.len() - 1]));
        lemma_vested_within_granted(t, ss.last());
    }
}

/// The last time at which a schedule changes: its end time, or its start time
/// when it has no end point.
pub open spec fn final_time(s: VestingSchedule) -> u64 {
    match s.end_point {
        Some(e) => e.time,
        None => s.start_point.time,
    }
}

proof fn lemma_fully_vested(t: u64, s: VestingSchedule)
    requires
        schedule_valid(s),
        final_time(s) <= t,
    ensures
        vested_amount(t, s) == granted_amount(s),
{
    if let Some(e) = s.end_point {
        assert(passed_time(t, e, s) == release_period(e, s));
        if e.time != s.start_point.time {
            lemma_whole_fraction(e.amount - s.start_point.amount, release_period(e, s));
        }
    }
}

/// Once every schedule has reached its end, all that valid schedules grant has vested.
pub proof fn law_fully_vested_after_end(t: u64, ss: Seq<VestingSchedule>)
    requires
        schedules_valid(ss),
        forall|i: int| 0 <= i < ss.len() ==> #[trigger] final_time(ss[i]) <= t,
    ensures
        vested_sum(t, ss) == granted_sum(ss),
    decreases ss.len(),
{
    if ss.len() > 0 {
        let d = ss.drop_last();
        assert(forall|i: int| 0 <= i < d.len() ==> d[i] == ss[i]);
        assert(schedules_valid(d));
        assert(forall|i: int| 0 <= i < d.len() ==> #[trigger] final_time(d[i]) <= t) by {
            assert forall|i: int| 0 <= i < d.len() implies #[trigger] final_time(d[i]) <= t by {
                assert(final_time(ss[i]) <= t);
            }
        }
        law_fully_vested_after_end(t, d);
        assert(schedule_valid(ss[ss.len() - 1]));
        assert(final_time(ss[ss.len() - 1]) <= t);
        lemma_fully_vested(t, ss.last());
    }
}

} // verus!
