//! Arguments a durable catalog is first opened with. The catalog itself is
//! an external collaborator; only these plain values belong to this crate.

use vstd::prelude::*;

verus! {

/// What to create when a catalog is opened for the first time.
#[derive(Clone, Debug)]
pub struct BootstrapArgs {
    /// The size of the cluster replica user collections start on.
    pub default_cluster_replica_size: String,
    /// The size of the cluster replicas the system's own collections use.
    pub builtin_cluster_replica_size: String,
    /// The role ownership of new objects falls to, if any.
    pub bootstrap_role: Option<String>,
}

/// Bootstrap arguments suitable for tests and debugging.
pub fn debug_bootstrap_args() -> (r: BootstrapArgs)
    ensures
        r.default_cluster_replica_size@ == "1"@,
        r.builtin_cluster_replica_size@ == "1"@,
        r.bootstrap_role is None,
{
    BootstrapArgs {
        default_cluster_replica_size: String::from_str("1"),
        builtin_cluster_replica_size: String::from_str("1"),
        bootstrap_role: None,
    }
}

} // verus!
