//! Records exchanged with the measurement backend.
use vstd::prelude::*;

verus! {

/// Registration request for a measuring machine.
#[derive(Clone, Debug)]
pub struct MachineData {
    pub name: String,
}

/// The backend's answer to a registration.
#[derive(Clone, Debug)]
pub struct Machine {
    pub id: i32,
}

/// A host to probe, by domain or by literal addresses.
#[derive(Clone, Debug)]
pub struct Target {
    pub id: i32,
    pub name: String,
    pub domain: Option<String>,
    pub ipv4: Option<String>,
    pub ipv6: Option<String>,
}

/// A plain acknowledgement.
#[derive(Clone, Debug)]
pub struct Message {
    pub msg: String,
}

} // verus!
