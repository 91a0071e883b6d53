//! A one-shot probe of the host machine's identity and resource state.
//!
//! The crate gathers operating-system and architecture identifiers,
//! user/host identity resolved from environment variables, RAM and CPU
//! figures from a metrics provider, and a GPU inventory parsed from the
//! text output of platform listing tools, and exposes the result as a
//! single immutable [`SystemInfo`] record.
//!
//! All decision logic (candidate ordering for environment lookups,
//! output parsing, degraded fallbacks, report formatting) is verified;
//! the caller supplies the raw readings of the process environment in an
//! [`EnvProbe`] and performs the actual I/O.

mod env;
mod error;
mod gpu;
mod metrics;
mod num;
mod placeholders;
mod system;
mod text;

pub use env::resolve_env_any;
pub use error::SystemError;
pub use gpu::get_gpus;
pub use gpu::GpuPlatform;
pub use system::lemma_platform_partition;
pub use system::EnvProbe;
pub use system::SystemInfo;
