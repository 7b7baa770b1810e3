//! Permission manifest of the Photon operations app.

use vstd::prelude::*;

verus! {

/// Permission name required for Photon admin reads.
pub const PHOTON_ADMIN_PERMISSION: &'static str = "PhotonAdmin";

/// Admin permission for Photon ops UI server functions, synced into the
/// `photon` domain.
#[derive(Debug, Clone, Copy, PartialEq, Eq, Structural)]
pub enum PhotonPermission {
    /// Read topics, subscriptions, events, and dashboard aggregates.
    PhotonAdmin,
}

impl PhotonPermission {
    /// The permission's name, as server functions name it.
    pub fn name(&self) -> (s: &'static str)
        ensures
            s@ == "PhotonAdmin"@,
    {
        match self {
            PhotonPermission::PhotonAdmin => "PhotonAdmin",
        }
    }

    /// The permission's description in the manifest.
    pub fn description(&self) -> (s: &'static str)
        ensures
            s@ == "Administer Photon topics, subscriptions, and event inspection"@,
    {
        match self {
            PhotonPermission::PhotonAdmin => "Administer Photon topics, subscriptions, and event inspection",
        }
    }

    /// Key of the permission domain.
    pub fn domain_key() -> (s: &'static str)
        ensures
            s@ == "photon"@,
    {
        "photon"
    }

    /// Display name of the permission domain.
    pub fn domain_name() -> (s: &'static str)
        ensures
            s@ == "Photon"@,
    {
        "Photon"
    }

    /// Description of the permission domain.
    pub fn domain_description() -> (s: &'static str)
        ensures
            s@ == "Photon event pipeline administration"@,
    {
        "Photon event pipeline administration"
    }
}

} // verus!
