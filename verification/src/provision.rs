//! Wallet provisioning decisions: ensuring a named wallet exists and is
//! loaded, idempotently. The node reports whether the wallet is currently
//! loaded and whether on-disk wallet state exists; the decision which action
//! to take, and the fact that taking it is idempotent, are verified here.

use vstd::prelude::*;
use vstd::string::StringExecFns;

verus! {

/// A handle scoped to one named wallet: the wallet's name and the node
/// endpoint bound to that name. Immutable after creation.
#[derive(Clone, Debug)]
pub struct WalletHandle {
    pub name: String,
    pub endpoint: String,
}

/// What the node reports about a named wallet before provisioning.
#[derive(Clone, Copy, PartialEq, Eq, Structural, Debug)]
pub struct WalletStatus {
    /// On-disk wallet state exists for the name.
    pub exists: bool,
    /// The wallet is currently loaded.
    pub loaded: bool,
}

impl WalletStatus {
    /// A node only ever loads wallets that have on-disk state.
    pub open spec fn wf(self) -> bool {
        self.loaded ==> self.exists
    }
}

/// The one action provisioning takes for a given status. A wallet that is
/// already loaded needs nothing: the "already loaded" / "already exists"
/// conditions are satisfied outcomes, not errors.
#[derive(Clone, Copy, PartialEq, Eq, Structural, Debug)]
pub enum ProvisionAction {
    /// The wallet exists and is loaded: nothing to do.
    AlreadySatisfied,
    /// On-disk state exists but is not loaded: load it.
    Load,
    /// No on-disk state exists: create the wallet (creation also loads it).
    Create,
}

/// The provisioning decision for a given wallet status.
pub open spec fn spec_plan(s: WalletStatus) -> ProvisionAction {
    if s.loaded {
        ProvisionAction::AlreadySatisfied
    } else if s.exists {
        ProvisionAction::Load
    } else {
        ProvisionAction::Create
    }
}

/// The wallet status after the node performs an action: loading marks the
/// wallet loaded, creating brings both on-disk state and a loaded wallet
/// into existence.
pub open spec fn spec_apply(s: WalletStatus, a: ProvisionAction) -> WalletStatus {
    match a {
        ProvisionAction::AlreadySatisfied => s,
        ProvisionAction::Load => WalletStatus { exists: s.exists, loaded: true },
        ProvisionAction::Create => WalletStatus { exists: true, loaded: true },
    }
}

/// The status after one full `ensure` pass: decide, then act.
pub open spec fn spec_ensure(s: WalletStatus) -> WalletStatus {
    spec_apply(s, spec_plan(s))
}

/// Decide what provisioning must do for the reported status.
pub fn plan_provision(s: &WalletStatus) -> (a: ProvisionAction)
    ensures
        a == spec_plan(*s),
{
    if s.loaded {
        ProvisionAction::AlreadySatisfied
    } else if s.exists {
        ProvisionAction::Load
    } else {
        ProvisionAction::Create
    }
}

/// Build the handle that `ensure` returns: it is bound to exactly the
/// requested wallet name, at the node's per-wallet sub-endpoint for that
/// name.
pub fn make_handle(base_url: &str, name: &String) -> (h: WalletHandle)
    ensures
        h.name@ == name@,
        h.endpoint@ == base_url@ + "/wallet/"@ + name@,
{
    let mut endpoint = String::from_str(base_url);
    endpoint.append("/wallet/");
    endpoint.append(name.as_str());
    WalletHandle { name: name.clone(), endpoint }
}

/// Ensuring a wallet is idempotent: one pass leaves the wallet existing and
/// loaded, and a second pass over the resulting status decides
/// `AlreadySatisfied` and changes nothing. Two `ensure` calls with the same
/// name therefore produce no error and end in the same wallet state, and the
/// handles both passes return are bound to the same name (`make_handle`).
pub proof fn lemma_ensure_idempotent(s: WalletStatus)
    requires
        s.wf(),
    ensures
        spec_ensure(s).wf(),
        spec_ensure(s).exists,
        spec_ensure(s).loaded,
        spec_plan(spec_ensure(s)) == ProvisionAction::AlreadySatisfied,
        spec_ensure(spec_ensure(s)) == spec_ensure(s),
{
}

} // verus!
