//! The hardware collector: one refresh against the `sysinfo` metrics
//! provider, out of which RAM totals/usage and the first logical core's
//! brand and the core count are read.
//!
//! The provider's readings depend on the machine at the moment of the
//! call, so nothing is promised of their values; the collector only
//! guarantees the degraded-reading policy: zero cores give the
//! "unknown_cpu" brand placeholder.

use vstd::prelude::*;

use crate::placeholders::UNKNOWN_CPU;

verus! {

#[verifier::external_type_specification]
#[verifier::external_body]
pub struct ExSystem(sysinfo::System);

#[verifier::external_type_specification]
#[verifier::external_body]
pub struct ExCpu(sysinfo::Cpu);

/// Relies on sysinfo::System::new_all: builds a provider handle with
/// every reading loaded once.
#[verifier::external_body]
fn provider_new() -> sysinfo::System {
    sysinfo::System::new_all()
}

/// Relies on sysinfo::System::refresh_all: re-reads every figure of the
/// handle in place.
#[verifier::external_body]
fn provider_refresh(sys: &mut sysinfo::System) {
    sys.refresh_all();
}

/// Relies on sysinfo::System::total_memory: the machine's RAM size
/// reading, a machine-dependent value.
#[verifier::external_body]
fn provider_total_memory(sys: &sysinfo::System) -> u64 {
    sys.total_memory()
}

/// Relies on sysinfo::System::used_memory: the machine's used-RAM
/// reading, a machine-dependent value.
#[verifier::external_body]
fn provider_used_memory(sys: &sysinfo::System) -> u64 {
    sys.used_memory()
}

/// Relies on sysinfo::System::cpus: the refreshed per-logical-core
/// descriptors, one per logical core the provider saw.
#[verifier::external_body]
fn provider_cpus<'a>(sys: &'a sysinfo::System) -> &'a [sysinfo::Cpu] {
    sys.cpus()
}

/// Relies on sysinfo::Cpu::brand: the descriptor's brand string.
#[verifier::external_body]
fn cpu_brand_of(cpu: &sysinfo::Cpu) -> String {
    cpu.brand().to_string()
}

/// One reading of the metrics provider.
///
/// The memory figures are reported in the provider's unit and `0` is a
/// legitimate degraded value, not an error sentinel.
pub struct MetricsReading {
    pub total_ram_kb: u64,
    pub used_ram_kb: u64,
    pub cpu_brand: String,
    pub cpu_cores: usize,
}

/// Query the metrics provider once.
///
/// The figures are whatever the provider reports of this machine; when
/// it reports no cores at all, the brand degrades to "unknown_cpu" and
/// the count to zero.
pub fn collect_metrics() -> (r: MetricsReading)
    ensures
        r.cpu_cores == 0 ==> r.cpu_brand@ == UNKNOWN_CPU@,
{
    let mut sys = provider_new();
    provider_refresh(&mut sys);
    let cpus = provider_cpus(&sys);
    let cores = cpus.len();
    let brand = if cores == 0 {
        String::from_str(UNKNOWN_CPU)
    } else {
        cpu_brand_of(&cpus[0])
    };
    MetricsReading {
        total_ram_kb: provider_total_memory(&sys),
        used_ram_kb: provider_used_memory(&sys),
        cpu_brand: brand,
        cpu_cores: cores,
    }
}

} // verus!
