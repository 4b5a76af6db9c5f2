//! The decisions around backups: what kind of backup the node's files
//! allow, and the status shown on the settings page.
use vstd::prelude::*;
use crate::snapshot::ZtState;
use crate::text::opt_chars;

verus! {

/// `full` when the identity can be saved with the rest, else `partial`.
pub open spec fn backup_kind(full: bool) -> Seq<char> {
    if full {
        "full"@
    } else {
        "partial"@
    }
}

/// The kind of an unpacked backup: full when it holds both halves of the
/// node identity.
pub fn determine_backup_type(has_identity_secret: bool, has_identity_public: bool) -> (r: &'static str)
    ensures
        r@ == backup_kind(has_identity_secret && has_identity_public),
{
    if has_identity_secret && has_identity_public {
        "full"
    } else {
        "partial"
    }
}

/// What the settings page shows about backups.
#[derive(Debug, Clone)]
pub struct BackupStatus {
    pub node_address: Option<String>,
    pub network_count: usize,
    pub can_backup_identity: bool,
}

impl BackupStatus {
    /// The status for the snapshot `zt`, given whether the identity file
    /// can be read.
    pub fn fetch(zt: &ZtState, can_backup_identity: bool) -> (r: BackupStatus)
        ensures
            opt_chars(r.node_address) == (match zt.status {
                Some(s) => opt_chars(s.address),
                None => None,
            }),
            r.network_count == zt.controller_networks@.len(),
            r.can_backup_identity == can_backup_identity,
    {
        let node_address = match &zt.status {
            Some(s) => match &s.address {
                Some(a) => Some(a.clone()),
                None => None,
            },
            None => None,
        };
        BackupStatus {
            node_address,
            network_count: zt.controller_networks.len(),
            can_backup_identity,
        }
    }

    pub fn backup_type(&self) -> (r: &'static str)
        ensures
            r@ == backup_kind(self.can_backup_identity),
    {
        if self.can_backup_identity {
            "full"
        } else {
            "partial"
        }
    }
}

} // verus!
