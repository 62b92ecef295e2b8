//! Handing a contract to a new owner in two steps: the owner proposes, and
//! the proposed owner claims before the proposal expires.
use vstd::prelude::*;

verus! {

/// The longest a proposal may stay open, in seconds: two weeks.
pub const MAX_PROPOSAL_TTL: u64 = 1_209_600;

/// A proposal to hand the contract to `owner`, open until `ttl`.
#[derive(Clone, Debug, PartialEq, Eq)]
pub struct OwnershipProposal {
    pub owner: String,
    pub ttl: u64,
}

/// Why an ownership step is refused.
#[derive(Clone, Copy, Debug, PartialEq, Eq, Structural)]
pub enum OwnershipError {
    Unauthorized,
    /// The proposed owner is the owner already
    SameOwner,
    /// The proposal would stay open longer than the given maximum
    TtlTooLong(u64),
    ProposalNotFound,
    ProposalExpired,
}

/// The owner proposes a new owner, for at most two weeks from `now`.
pub fn propose_new_owner(
    sender: &String,
    owner: &String,
    new_owner: String,
    expires_in: u64,
    now: u64,
) -> (r: Result<OwnershipProposal, OwnershipError>)
    requires
        expires_in <= MAX_PROPOSAL_TTL ==> now + expires_in <= u64::MAX,
    ensures
        sender@ != owner@ ==> r == Err::<OwnershipProposal, OwnershipError>(OwnershipError::Unauthorized),
        (sender@ == owner@ && new_owner@ == owner@) ==> r == Err::<OwnershipProposal, OwnershipError>(
            OwnershipError::SameOwner,
        ),
        (sender@ == owner@ && new_owner@ != owner@ && expires_in > MAX_PROPOSAL_TTL) ==> r == Err::<
            OwnershipProposal,
            OwnershipError,
        >(OwnershipError::TtlTooLong(MAX_PROPOSAL_TTL)),
        (sender@ == owner@ && new_owner@ != owner@ && expires_in <= MAX_PROPOSAL_TTL) ==> r == Ok::<
            OwnershipProposal,
            OwnershipError,
        >(OwnershipProposal { owner: new_owner, ttl: (now + expires_in) as u64 }),
{
    if !sender.eq(owner) {
        return Err(OwnershipError::Unauthorized);
    }
    if new_owner.eq(owner) {
        return Err(OwnershipError::SameOwner);
    }
    if expires_in > MAX_PROPOSAL_TTL {
        return Err(OwnershipError::TtlTooLong(MAX_PROPOSAL_TTL));
    }
    Ok(OwnershipProposal { owner: new_owner, ttl: now + expires_in })
}

/// The owner withdraws the open proposal.
pub fn drop_ownership_proposal(sender: &String, owner: &String) -> (r: Result<(), OwnershipError>)
    ensures
        r is Ok <==> sender@ == owner@,
        r matches Err(e) ==> e == OwnershipError::Unauthorized,
{
    if sender.eq(owner) {
        Ok(())
    } else {
        Err(OwnershipError::Unauthorized)
    }
}

/// The proposed owner claims the contract while the proposal is open.
/// Returns the new owner; the proposal is then closed.
pub fn claim_ownership(sender: &String, proposal: Option<OwnershipProposal>, now: u64) -> (r: Result<
    String,
    OwnershipError,
>)
    ensures
        proposal is None ==> r == Err::<String, OwnershipError>(OwnershipError::ProposalNotFound),
        proposal matches Some(p) ==> (if sender@ != p.owner@ {
            r == Err::<String, OwnershipError>(OwnershipError::Unauthorized)
        } else if now > p.ttl {
            r == Err::<String, OwnershipError>(OwnershipError::ProposalExpired)
        } else {
            r == Ok::<String, OwnershipError>(p.owner)
        }),
{
    let p = match proposal {
        Some(p) => p,
        None => {
            return Err(OwnershipError::ProposalNotFound);
        },
    };
    if !sender.eq(&p.owner) {
        return Err(OwnershipError::Unauthorized);
    }
    if now > p.ttl {
        return Err(OwnershipError::ProposalExpired);
    }
    Ok(p.owner)
}

} // verus!
