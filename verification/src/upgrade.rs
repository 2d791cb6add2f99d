//! Forkless upgrades: a pending version is staged, then swapped in.

use vstd::prelude::*;
use vstd::string::StringExecFns;

verus! {

pub struct UpgradeManager {
    pub current_version: String,
    pub pending_upgrade: Option<String>,
}

impl UpgradeManager {
    /// A manager running the given version with nothing staged.
    pub fn new(version: String) -> (m: Self)
        ensures
            m.current_version == version,
            m.pending_upgrade is None,
    {
        UpgradeManager { current_version: version, pending_upgrade: None }
    }

    /// Stages a version to upgrade to, replacing any staged one.
    pub fn propose_upgrade(&mut self, new_version: String)
        ensures
            final(self).current_version == old(self).current_version,
            final(self).pending_upgrade == Some(new_version),
    {
        self.pending_upgrade = Some(new_version);
    }

    /// Swaps the staged version in and returns it; with nothing staged
    /// the upgrade is refused.
    pub fn execute_upgrade(&mut self) -> (r: Result<String, String>)
        ensures
            r is Ok <==> old(self).pending_upgrade is Some,
            old(self).pending_upgrade is None ==> (r is Err && r->Err_0@ == "No pending upgrade"@
                && final(self).current_version == old(self).current_version
                && final(self).pending_upgrade is None),
            old(self).pending_upgrade is Some ==> {
                &&& r->Ok_0@ == old(self).pending_upgrade->0@
                &&& final(self).current_version@ == old(self).pending_upgrade->0@
                &&& final(self).pending_upgrade is None
            },
    {
        let pending = self.pending_upgrade.take();
        match pending {
            Some(new_version) => {
                self.current_version = new_version.clone();
                Ok(new_version)
            },
            None => Err("No pending upgrade".to_owned()),
        }
    }

    /// The version currently running.
    pub fn current_version(&self) -> (r: &str)
        ensures
            r@ == self.current_version@,
    {
        self.current_version.as_str()
    }
}

} // verus!
