//! Typed failures of the session and of VLAN operations.
use vstd::prelude::*;

verus! {

/// Failures of the terminal session itself.
#[derive(Clone, Copy, Debug, PartialEq, Eq, Structural)]
pub enum SuperStackError {
    /// The transport could not be established.
    Connect,
    /// The login was rejected or its prompts were not seen.
    Login,
    /// A command was sent while no session was open, or the session broke.
    NotConnected,
    /// No end of response was seen within the read timeout.
    Timeout,
}

/// Failures of VLAN operations.
#[derive(Clone, Copy, Debug, PartialEq, Eq, Structural)]
pub enum VlanError {
    VlanNotFound { vlan_id: u32 },
    PortNotFound { port: u32 },
    Exists { vlan_id: u32 },
    /// The device's output did not have the expected shape.
    Parse,
    /// The session failed while the operation ran.
    Session { cause: SuperStackError },
}

impl From<SuperStackError> for VlanError {
    fn from(cause: SuperStackError) -> (r: VlanError)
        ensures
            r == (VlanError::Session { cause }),
    {
        VlanError::Session { cause }
    }
}

impl vstd::std_specs::convert::FromSpecImpl<SuperStackError> for VlanError {
    open spec fn obeys_from_spec() -> bool {
        true
    }

    open spec fn from_spec(cause: SuperStackError) -> VlanError {
        VlanError::Session { cause }
    }
}

} // verus!
