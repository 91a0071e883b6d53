//! The placeholder values of degraded readings, shared so that the
//! degraded-snapshot contract stays auditable in one place.

use vstd::prelude::*;

verus! {

/// The username of the degraded snapshot.
pub const UNKNOWN_USER: &'static str = "unknown_user";

/// The hostname substituted when its candidates are all unset.
pub const UNKNOWN_HOST: &'static str = "unknown_host";

/// The shell substituted when its candidates are all unset.
pub const UNKNOWN_SHELL: &'static str = "unknown_shell";

/// The CPU brand substituted when the provider reports no cores.
pub const UNKNOWN_CPU: &'static str = "unknown_cpu";

/// The one-element GPU inventory of a failed or empty enumeration.
pub const UNKNOWN_GPU: &'static str = "unknown";

} // verus!
