//! Building the configuration of a vesting contract with its extensions.
use crate::vesting::types::{Config, Extensions};
use vstd::prelude::*;

verus! {

/// A builder for vesting contracts with different extensions.
pub struct VestingBaseBuilder {
    vesting_managers: Vec<String>,
    historical: bool,
    managed: bool,
    with_managers: bool,
}

impl Default for VestingBaseBuilder {
    fn default() -> (r: Self)
        ensures
            r.managers()@.len() == 0,
            r.extensions() == (Extensions { historical: false, managed: false, with_managers: false }),
    {
        VestingBaseBuilder {
            vesting_managers: Vec::new(),
            historical: false,
            managed: false,
            with_managers: false,
        }
    }
}

impl VestingBaseBuilder {
    pub closed spec fn managers(&self) -> Vec<String> {
        self.vesting_managers
    }

    pub closed spec fn extensions(&self) -> Extensions {
        Extensions {
            historical: self.historical,
            managed: self.managed,
            with_managers: self.with_managers,
        }
    }

    /// Appends a managed extension to the created vesting contract.
    pub fn managed(&mut self) -> (r: &mut VestingBaseBuilder)
        ensures
            r.managers()@ == old(self).managers()@,
            r.extensions() == (Extensions { managed: true, ..old(self).extensions() }),
            *final(self) == *final(r),
    {
        self.managed = true;
        self
    }

    /// Appends a with_managers extension to the created vesting contract,
    /// with `managers` added to the vesting managers.
    pub fn with_managers(&mut self, managers: Vec<String>) -> (r: &mut VestingBaseBuilder)
        ensures
            r.managers()@ == old(self).managers()@ + managers@,
            r.extensions() == (Extensions { with_managers: true, ..old(self).extensions() }),
            *final(self) == *final(r),
    {
        let mut managers = managers;
        self.vesting_managers.append(&mut managers);
        self.with_managers = true;
        self
    }

    /// Appends a historical extension to the created vesting contract.
    pub fn historical(&mut self) -> (r: &mut VestingBaseBuilder)
        ensures
            r.managers()@ == old(self).managers()@,
            r.extensions() == (Extensions { historical: true, ..old(self).extensions() }),
            *final(self) == *final(r),
    {
        self.historical = true;
        self
    }

    /// The contract configuration, for validated owner and token info manager
    /// addresses, and the vesting managers to record: those given, when the
    /// with_managers extension is enabled, else none.
    pub fn build(&self, owner: String, token_info_manager: String) -> (r: (Config, Vec<String>))
        ensures
            r.0 == (Config {
                owner,
                vesting_token: None,
                token_info_manager,
                extensions: self.extensions(),
            }),
            self.extensions().with_managers ==> r.1@ == self.managers()@,
            !self.extensions().with_managers ==> r.1@.len() == 0,
    {
        let config = Config {
            owner,
            vesting_token: None,
            token_info_manager,
            extensions: Extensions {
                historical: self.historical,
                managed: self.managed,
                with_managers: self.with_managers,
            },
        };
        let mut managers: Vec<String> = Vec::new();
        if self.with_managers {
            let mut i: usize = 0;
            while i < self.vesting_managers.len()
                invariant
                    i <= self.vesting_managers@.len(),
                    managers@ == self.vesting_managers@.take(i as int),
                decreases self.vesting_managers@.len() - i,
            {
                managers.push(self.vesting_managers[i].clone());
                i = i + 1;
                proof {
                    assert(managers@ =~= self.vesting_managers@.take(i as int));
                }
            }
            proof {
                assert(self.vesting_managers@.take(self.vesting_managers@.len() as int)
                    =~= self.vesting_managers@);
            }
        }
        (config, managers)
    }
}

} // verus!
