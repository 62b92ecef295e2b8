//! What the lockdrop answers about its users.
use crate::lockdrop::types::{LockUpInfoResponse, LockUpInfoSummary, LockdropError, UserInfo};
use vstd::prelude::*;

verus! {

/// Summarized details regarding a user, with each of the user's positions.
#[derive(Debug)]
pub struct UserInfoResponse {
    pub total_ntrn_rewards: u128,
    pub ntrn_transferred: bool,
    pub lockup_infos: Vec<LockUpInfoResponse>,
    pub claimable_generator_ntrn_debt: u128,
    pub lockup_positions_index: u32,
}

/// Summarized details regarding a user, with the keys of the user's positions.
#[derive(Debug)]
pub struct UserInfoWithListResponse {
    pub total_ntrn_rewards: u128,
    pub ntrn_transferred: bool,
    pub lockup_infos: Vec<LockUpInfoSummary>,
    pub lockup_positions_index: u32,
}

/// The NTRN rewards and the claimable generator rewards of the positions,
/// summed in order; an overflow where a running sum leaves 128 bits.
pub open spec fn user_totals(infos: Seq<LockUpInfoResponse>) -> Result<(int, int), LockdropError>
    decreases infos.len(),
{
    if infos.len() == 0 {
        Ok((0, 0))
    } else {
        match user_totals(infos.drop_last()) {
            Err(e) => Err(e),
            Ok((rewards, claimable)) => {
                let last = infos.last();
                if rewards + last.ntrn_rewards > u128::MAX || claimable
                    + last.claimable_generator_astro_debt > u128::MAX {
                    Err(LockdropError::Overflow)
                } else {
                    Ok((rewards + last.ntrn_rewards, claimable + last.claimable_generator_astro_debt))
                }
            },
        }
    }
}

/// A user's totals add up over the positions: with no position both are
/// zero; adding a position adds its one-time reward to the rewards total and
/// its claimable generator rewards to the claimable total, and the totals are
/// refused exactly where one of these sums leaves 128 bits, or was refused
/// before.
pub proof fn law_user_totals_add_up(s: Seq<LockUpInfoResponse>, x: LockUpInfoResponse)
    ensures
        user_totals(Seq::<LockUpInfoResponse>::empty()) == Ok::<(int, int), LockdropError>((0, 0)),
        user_totals(s) is Err ==> user_totals(s.push(x)) is Err,
        user_totals(s) matches Ok((r, c)) ==> (if r + x.ntrn_rewards <= u128::MAX && c
            + x.claimable_generator_astro_debt <= u128::MAX {
            user_totals(s.push(x)) == Ok::<(int, int), LockdropError>(
                (r + x.ntrn_rewards, c + x.claimable_generator_astro_debt),
            )
        } else {
            user_totals(s.push(x)) is Err
        }),
{
    assert(s.push(x).drop_last() =~= s);
    assert(s.push(x).last() == x);
}

proof fn lemma_user_totals_error_stays(infos: Seq<LockUpInfoResponse>, n: int)
    requires
        0 <= n <= infos.len(),
        user_totals(infos.take(n)) is Err,
    ensures
        user_totals(infos) == user_totals(infos.take(n)),
    decreases infos.len() - n,
{
    if n < infos.len() {
        assert(infos.take(n + 1).drop_last() =~= infos.take(n));
        lemma_user_totals_error_stays(infos, n + 1);
    } else {
        assert(infos.take(n) =~= infos);
    }
}

/// Returns summarized details regarding the user: the NTRN rewards and the
/// claimable generator rewards of the user's positions, given in key order,
/// summed up.
pub fn query_user_info(user: UserInfo, lockup_infos: Vec<LockUpInfoResponse>) -> (r: Result<
    UserInfoResponse,
    LockdropError,
>)
    ensures
        user_totals(lockup_infos@) is Err ==> r == Err::<UserInfoResponse, LockdropError>(
            user_totals(lockup_infos@)->Err_0,
        ),
        user_totals(lockup_infos@) matches Ok((rewards, claimable)) ==> (r matches Ok(resp)
            && resp.total_ntrn_rewards == rewards && resp.claimable_generator_ntrn_debt
            == claimable && resp.ntrn_transferred == user.ntrn_transferred
            && resp.lockup_positions_index == user.lockup_positions_index
            && resp.lockup_infos@ == lockup_infos@),
{
    let mut rewards: u128 = 0;
    let mut claimable: u128 = 0;
    let mut i: usize = 0;
    proof {
        assert(lockup_infos@.take(0) =~= Seq::<LockUpInfoResponse>::empty());
    }
    while i < lockup_infos.len()
        invariant
            i <= lockup_infos@.len(),
            user_totals(lockup_infos@.take(i as int)) == Ok::<(int, int), LockdropError>(
                (rewards as int, claimable as int),
            ),
        decreases lockup_infos@.len() - i,
    {
        proof {
            assert(lockup_infos@.take(i + 1).drop_last() =~= lockup_infos@.take(i as int));
            assert(lockup_infos@.take(i + 1).last() == lockup_infos@[i as int]);
        }
        rewards = match rewards.checked_add(lockup_infos[i].ntrn_rewards) {
            Some(v) => v,
            None => {
                proof {
                    lemma_user_totals_error_stays(lockup_infos@, i + 1);
                }
                return Err(LockdropError::Overflow);
            },
        };
        claimable = match claimable.checked_add(lockup_infos[i].claimable_generator_astro_debt) {
            Some(v) => v,
            None => {
                proof {
                    lemma_user_totals_error_stays(lockup_infos@, i + 1);
                }
                return Err(LockdropError::Overflow);
            },
        };
        i = i + 1;
    }
    proof {
        assert(lockup_infos@.take(i as int) =~= lockup_infos@);
    }
    Ok(UserInfoResponse {
        total_ntrn_rewards: rewards,
        ntrn_transferred: user.ntrn_transferred,
        lockup_infos,
        claimable_generator_ntrn_debt: claimable,
        lockup_positions_index: user.lockup_positions_index,
    })
}

/// Returns summarized details regarding the user with the keys of the
/// user's positions, in key order.
pub fn query_user_info_with_lockups_list(user: UserInfo, keys: Vec<LockUpInfoSummary>) -> (r:
    UserInfoWithListResponse)
    ensures
        r.total_ntrn_rewards == user.total_ntrn_rewards,
        r.ntrn_transferred == user.ntrn_transferred,
        r.lockup_infos@ == keys@,
        r.lockup_positions_index == user.lockup_positions_index,
{
    UserInfoWithListResponse {
        total_ntrn_rewards: user.total_ntrn_rewards,
        ntrn_transferred: user.ntrn_transferred,
        lockup_infos: keys,
        lockup_positions_index: user.lockup_positions_index,
    }
}

/// The LP tokens locked in a pool at a height: the pool's amount then, or
/// zero where the pool did not exist.
pub fn query_lockup_total_at_height(amount_in_lockups: Option<u128>) -> (r: Option<u128>)
    ensures
        r == Some(
            match amount_in_lockups {
                Some(a) => a,
                None => 0u128,
            },
        ),
{
    match amount_in_lockups {
        Some(a) => Some(a),
        None => Some(0),
    }
}

} // verus!
