//! Building the configuration of the vesting contract that receives migrated
//! liquidity, with its extensions.
use crate::vesting::admin::contains_address;
use crate::vesting::types::{AssetInfo, Extensions, VestingError};
use vstd::prelude::*;

verus! {

/// The parameters of the vesting contract that receives migrated liquidity.
#[derive(Clone, Debug, PartialEq, Eq)]
pub struct Config {
    /// Address that's allowed to change contract parameters
    pub owner: String,
    /// The vested token
    pub vesting_token: Option<AssetInfo>,
    /// Address that's allowed to change the vesting token
    pub token_info_manager: String,
    /// Contains extensions information of the contract
    pub extensions: Extensions,
    /// The vesting contract that liquidity is migrated from
    pub xyk_vesting_lp_contract: String,
}

/// A builder for vesting contracts with different extensions.
pub struct VestingBaseBuilder {
    vesting_managers: Vec<String>,
    historical: bool,
    managed: bool,
    with_managers: bool,
}

impl Default for VestingBaseBuilder {
    fn default() -> (r: Self)
        ensures
            r.managers()@.len() == 0,
            r.extensions() == (Extensions { historical: false, managed: false, with_managers: false }),
    {
        VestingBaseBuilder {
            vesting_managers: Vec::new(),
            historical: false,
            managed: false,
            with_managers: false,
        }
    }
}

impl VestingBaseBuilder {
    pub closed spec fn managers(&self) -> Vec<String> {
        self.vesting_managers
    }

    pub closed spec fn extensions(&self) -> Extensions {
        Extensions {
            historical: self.historical,
            managed: self.managed,
            with_managers: self.with_managers,
        }
    }

    /// Appends a managed extension to the created vesting contract.
    pub fn managed(&mut self) -> (r: &mut VestingBaseBuilder)
        ensures
            r.managers()@ == old(self).managers()@,
            r.extensions() == (Extensions { managed: true, ..old(self).extensions() }),
            *final(self) == *final(r),
    {
        self.managed = true;
        self
    }

    /// Appends a with_managers extension to the created vesting contract,
    /// with `managers` added to the vesting managers.
    pub fn with_managers(&mut self, managers: Vec<String>) -> (r: &mut VestingBaseBuilder)
        ensures
            r.managers()@ == old(self).managers()@ + managers@,
            r.extensions() == (Extensions { with_managers: true, ..old(self).extensions() }),
            *final(self) == *final(r),
    {
        let mut managers = managers;
        self.vesting_managers.append(&mut managers);
        self.with_managers = true;
        self
    }

    /// Appends a historical extension to the created vesting contract.
    pub fn historical(&mut self) -> (r: &mut VestingBaseBuilder)
        ensures
            r.managers()@ == old(self).managers()@,
            r.extensions() == (Extensions { historical: true, ..old(self).extensions() }),
            *final(self) == *final(r),
    {
        self.historical = true;
        self
    }

    /// The contract configuration, for validated owner, token info manager and
    /// source contract addresses and the vested token, and the vesting managers
    /// to record: those given, when the with_managers extension is enabled,
    /// else none.
    pub fn build(
        &self,
        owner: String,
        token_info_manager: String,
        xyk_vesting_lp_contract: String,
        vesting_token: AssetInfo,
    ) -> (r: (Config, Vec<String>))
        ensures
            r.0 == (Config {
                owner,
                vesting_token: Some(vesting_token),
                token_info_manager,
                extensions: self.extensions(),
                xyk_vesting_lp_contract,
            }),
            self.extensions().with_managers ==> r.1@ == self.managers()@,
            !self.extensions().with_managers ==> r.1@.len() == 0,
    {
        let config = Config {
            owner,
            vesting_token: Some(vesting_token),
            token_info_manager,
            extensions: Extensions {
                historical: self.historical,
                managed: self.managed,
                with_managers: self.with_managers,
            },
            xyk_vesting_lp_contract,
        };
        let mut managers: Vec<String> = Vec::new();
        if self.with_managers {
            let mut i: usize = 0;
            while i < self.vesting_managers.len()
                invariant
                    i <= self.vesting_managers@.len(),
                    managers@ == self.vesting_managers@.take(i as int),
                decreases self.vesting_managers@.len() - i,
            {
                managers.push(self.vesting_managers[i].clone());
                i = i + 1;
                proof {
                    assert(managers@ =~= self.vesting_managers@.take(i as int));
                }
            }
            proof {
                assert(self.vesting_managers@.take(self.vesting_managers@.len() as int)
                    =~= self.vesting_managers@);
            }
        }
        (config, managers)
    }
}

/// Whether the sender is the vesting contract liquidity is migrated from.
pub fn is_sender_xyk_vesting_lp(config: &Config, sender: &String) -> (r: bool)
    ensures
        r == (sender@ == config.xyk_vesting_lp_contract@),
{
    sender.eq(&config.xyk_vesting_lp_contract)
}

/// Whether `sender` may register vesting accounts: the owner, the vesting
/// contract liquidity is migrated from, or a vesting manager.
pub fn is_sender_whitelisted(config: &Config, managers: &Vec<String>, sender: &String) -> (r: bool)
    ensures
        r == (sender@ == config.owner@ || sender@ == config.xyk_vesting_lp_contract@ || exists|i: int|
            0 <= i < managers@.len() && #[trigger] managers@[i]@ == sender@),
{
    if sender.eq(&config.owner) {
        return true;
    }
    if sender.eq(&config.xyk_vesting_lp_contract) {
        return true;
    }
    contains_address(managers, sender)
}

/// What a token transfer to the contract asks for.
#[derive(Debug)]
pub enum ReceiveHook {
    /// Register vesting accounts with the tokens received
    RegisterVestingAccounts,
    /// Record liquidity migrated from the previous vesting contract
    MigrateXYKLiquidity,
}

/// Checks a token transfer to the contract: the vested token must be set;
/// accounts may be registered only by a whitelisted sender that is the
/// vested token itself, and migrated liquidity only comes from the previous
/// vesting contract.
pub fn check_receive(config: &Config, managers: &Vec<String>, sender: &String, hook: ReceiveHook) -> (r:
    Result<(), VestingError>)
    ensures
        config.vesting_token is None ==> r == Err::<(), VestingError>(VestingError::VestingTokenIsNotSet),
        config.vesting_token is Some ==> match hook {
            ReceiveHook::RegisterVestingAccounts => {
                let whitelisted = sender@ == config.owner@ || sender@ == config.xyk_vesting_lp_contract@
                    || exists|i: int| 0 <= i < managers@.len() && #[trigger] managers@[i]@ == sender@;
                let token_matches = config.vesting_token.unwrap().same(
                    AssetInfo::Token { contract_addr: *sender },
                );
                if whitelisted && token_matches {
                    r == Ok::<(), VestingError>(())
                } else {
                    r == Err::<(), VestingError>(VestingError::Unauthorized)
                }
            },
            ReceiveHook::MigrateXYKLiquidity => if sender@ == config.xyk_vesting_lp_contract@ {
                r == Ok::<(), VestingError>(())
            } else {
                r == Err::<(), VestingError>(VestingError::Unauthorized)
            },
        },
{
    let token = match &config.vesting_token {
        Some(t) => t,
        None => {
            return Err(VestingError::VestingTokenIsNotSet);
        },
    };
    match hook {
        ReceiveHook::RegisterVestingAccounts => {
            let sender_token = AssetInfo::Token { contract_addr: sender.clone() };
            if !is_sender_whitelisted(config, managers, sender) || !sender_token.equals(token) {
                return Err(VestingError::Unauthorized);
            }
            proof {
                assert(token.same(sender_token) == sender_token.same(*token));
            }
            Ok(())
        },
        ReceiveHook::MigrateXYKLiquidity => {
            if !is_sender_xyk_vesting_lp(config, sender) {
                return Err(VestingError::Unauthorized);
            }
            Ok(())
        },
    }
}

} // verus!
