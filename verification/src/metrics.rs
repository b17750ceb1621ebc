//! The metrics reader: one owned handle to the host's metrics source,
//! re-queried on demand. What the host reports is opaque; everything derived
//! from a reading is built and checked in verified code.

use crate::csvenc::csv_clean;
use crate::schema::Sample;
use crate::timestamp::Timestamp;
use vstd::prelude::*;

verus! {

#[verifier::external_type_specification]
#[verifier::external_body]
pub struct ExSystem(sysinfo::System);

/// Relies on sysinfo::System::new_all, which builds a handle with every kind
/// of host information loaded once.
#[verifier::external_body]
fn system_new_all() -> sysinfo::System {
    sysinfo::System::new_all()
}

/// Relies on sysinfo::System::refresh_all to re-query the host behind the
/// handle.
#[verifier::external_body]
fn system_refresh_all(sys: &mut sysinfo::System) {
    sys.refresh_all();
}

/// Relies on sysinfo::System::used_memory: the RAM in use, in bytes, as of
/// the last refresh. Nothing is promised of the value; it is host state.
#[verifier::external_body]
fn system_used_memory(sys: &sysinfo::System) -> u64 {
    sys.used_memory()
}

/// Relies on sysinfo::System::total_memory: the RAM of the host, in bytes,
/// as of the last refresh. Nothing is promised of the value.
#[verifier::external_body]
fn system_total_memory(sys: &sysinfo::System) -> u64 {
    sys.total_memory()
}

/// Relies on sysinfo::System::global_cpu_usage, the host-wide CPU percentage
/// as of the last refresh, rendered as decimal text. The value depends on the
/// host and the moment, so nothing is promised of it; but std's Display for
/// f32 yields one of a decimal numeral (digits, sign, point, exponent),
/// `inf` or `NaN` — never empty, never a comma, quote or line break.
#[verifier::external_body]
fn system_global_cpu_text(sys: &sysinfo::System) -> (r: String)
    ensures
        r@.len() > 0,
        csv_clean(r@),
{
    format!("{}", sys.global_cpu_usage())
}

/// Relies on sysinfo::System::cpus, the logical cores in enumeration order,
/// and sysinfo::Cpu::cpu_usage, each core's percentage as of the last
/// refresh; each is rendered as decimal text, index-aligned with the cores.
/// As for the host-wide text, std's Display for f32 makes every text
/// nonempty and free of commas, quotes and line breaks.
#[verifier::external_body]
fn system_cpu_usage_texts(sys: &sysinfo::System) -> (r: Vec<String>)
    ensures
        forall|i: int|
            0 <= i < r@.len() ==> (#[trigger] r@[i])@.len() > 0 && csv_clean(r@[i]@),
{
    sys.cpus().iter().map(|cpu| format!("{}", cpu.cpu_usage())).collect()
}

/// The metrics reader of the sampling loop: owns the handle to the host's
/// metrics source and re-queries it on every call.
pub struct MetricsReader {
    sys: sysinfo::System,
}

impl MetricsReader {
    /// Opens the handle with a first full query, so that a later reading can
    /// report a CPU delta over a nonzero window.
    pub fn new() -> MetricsReader {
        MetricsReader { sys: system_new_all() }
    }

    /// Re-queries the host and reports how many logical cores it shows right
    /// now; the header of a newly opened file is derived from this count.
    pub fn observed_core_count(&mut self) -> usize {
        system_refresh_all(&mut self.sys);
        let texts = system_cpu_usage_texts(&self.sys);
        texts.len()
    }

    /// Re-queries the host and forms the sample for `timestamp`: memory in
    /// whole megabytes by integer division of the byte counts, the CPU
    /// percentages as texts, one per core in enumeration order. Whatever the
    /// host reported, every CPU text is nonempty and clean of the characters
    /// the record format reserves, so the sample's row line keeps one field
    /// per column; the megabyte derivation is pinned by
    /// `Sample::from_readings`.
    pub fn sample(&mut self, timestamp: Timestamp) -> (s: Sample)
        requires
            timestamp.wf(),
        ensures
            s.timestamp == timestamp,
            s.cpu_global_usage@.len() > 0,
            csv_clean(s.cpu_global_usage@),
            forall|i: int|
                0 <= i < s.cpu_core_usage@.len() ==> (#[trigger] s.cpu_core_usage@[i])@.len() > 0
                    && csv_clean(s.cpu_core_usage@[i]@),
    {
        system_refresh_all(&mut self.sys);
        let memory_used_bytes = system_used_memory(&self.sys);
        let memory_total_bytes = system_total_memory(&self.sys);
        let cpu_global_usage = system_global_cpu_text(&self.sys);
        let cpu_core_usage = system_cpu_usage_texts(&self.sys);
        Sample::from_readings(
            timestamp,
            memory_used_bytes,
            memory_total_bytes,
            cpu_global_usage,
            cpu_core_usage,
        )
    }
}

} // verus!
