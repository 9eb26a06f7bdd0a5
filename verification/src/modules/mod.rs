//! The modules that can be monitored, one collector each, and what a
//! collector is.

use vstd::prelude::*;
use crate::error::GimError;
use crate::metric::{MetricData, Pairs, Timestamp};

pub mod cpu;
pub mod disk;
pub mod memory;
pub mod network;
pub mod process;
pub mod system;

verus! {

/// The modules that can be monitored.
#[derive(Clone, Copy, PartialEq, Eq, Structural, Debug)]
pub enum ModuleKind {
    Cpu,
    Memory,
    Disk,
    Network,
    Process,
    System,
}

/// What the metrics source reports for one module.
#[derive(Debug)]
pub enum Reading {
    Cpu(cpu::CpuReading),
    Memory(memory::MemoryReading),
    Disk(disk::DiskReading),
    Network(network::NetworkReading),
    Process(process::ProcessReading),
    System(system::SystemReading),
}

/// The outcome of asking the metrics source for one module: a reading, or the
/// reason why there is none.
pub type Sample = Result<Reading, String>;

/// The name of each module.
pub open spec fn module_name(kind: ModuleKind) -> Seq<char> {
    match kind {
        ModuleKind::Cpu => "cpu"@,
        ModuleKind::Memory => "memory"@,
        ModuleKind::Disk => "disk"@,
        ModuleKind::Network => "network"@,
        ModuleKind::Process => "process"@,
        ModuleKind::System => "system"@,
    }
}

/// No two modules share a name.
pub proof fn module_names_differ(a: ModuleKind, b: ModuleKind)
    ensures
        module_name(a) == module_name(b) <==> a == b,
{
    reveal_strlit("cpu");
    reveal_strlit("memory");
    reveal_strlit("disk");
    reveal_strlit("network");
    reveal_strlit("process");
    reveal_strlit("system");
    if a != b && module_name(a).len() == module_name(b).len() {
        assert(module_name(a)[0] != module_name(b)[0]);
    }
}

/// Whether a name is that of a module.
pub open spec fn recognized(name: Seq<char>) -> bool {
    exists|kind: ModuleKind| name == #[trigger] module_name(kind)
}

/// The metrics that a module's collector makes of a reading; none of a
/// reading that is meant for another module.
pub open spec fn shaped(kind: ModuleKind, reading: Reading) -> Option<Pairs> {
    match (kind, reading) {
        (ModuleKind::Cpu, Reading::Cpu(r)) => Some(cpu::cpu_pairs(r)),
        (ModuleKind::Memory, Reading::Memory(r)) => Some(memory::memory_pairs(r)),
        (ModuleKind::Disk, Reading::Disk(r)) => Some(disk::disk_pairs(r)),
        (ModuleKind::Network, Reading::Network(r)) => Some(network::network_pairs(r)),
        (ModuleKind::Process, Reading::Process(r)) => Some(process::process_pairs(r)),
        (ModuleKind::System, Reading::System(r)) => Some(system::system_pairs(r)),
        _ => None,
    }
}

/// The metrics that a module's collector makes of a sample; none where the
/// source failed or answered for another module.
pub open spec fn yield_of(kind: ModuleKind, sample: Sample) -> Option<Pairs> {
    match sample {
        Ok(reading) => shaped(kind, reading),
        Err(_) => None,
    }
}

/// Why a sample yields no metrics: the reason that the source gave, or that
/// the reading is another module's.
pub open spec fn refusal_reason(sample: Sample) -> Seq<char> {
    match sample {
        Ok(_) => "reading belongs to another module"@,
        Err(reason) => reason@,
    }
}

/// What a collector of the given module returns for a sample: the metrics
/// with the moment of collection, or its failure with the reason.
pub open spec fn collected(
    kind: ModuleKind,
    sample: Sample,
    at: Timestamp,
    result: Result<MetricData, GimError>,
) -> bool {
    match yield_of(kind, sample) {
        Some(pairs) => result matches Ok(data) && data.wf() && data.moment() == at && data.pairs()
            == pairs,
        None => result matches Err(GimError::Collector { module, source }) && module@
            == module_name(kind) && source@ == refusal_reason(sample),
    }
}

/// A collector: it names its module and shapes what the metrics source
/// reports for it.
pub trait MetricCollector {
    /// The module that this collector serves.
    spec fn kind(&self) -> ModuleKind;

    /// The name of the module.
    fn name(&self) -> (r: &'static str)
        ensures
            r@ == module_name(self.kind()),
    ;

    /// The metrics of the module at the moment `at`, made of what the source
    /// reported; a failure where it reported none for this module.
    fn collect(&self, sample: &Sample, at: Timestamp) -> (r: Result<MetricData, GimError>)
        ensures
            collected(self.kind(), *sample, at, r),
    ;
}

impl ModuleKind {
    /// The name of the module.
    pub fn name(&self) -> (r: &'static str)
        ensures
            r@ == module_name(*self),
    {
        match self {
            ModuleKind::Cpu => "cpu",
            ModuleKind::Memory => "memory",
            ModuleKind::Disk => "disk",
            ModuleKind::Network => "network",
            ModuleKind::Process => "process",
            ModuleKind::System => "system",
        }
    }

    /// The module of the given name, if there is one.
    pub fn parse(name: &str) -> (r: Option<ModuleKind>)
        ensures
            match r {
                Some(kind) => name@ == module_name(kind),
                None => !recognized(name@),
            },
    {
        let chars = crate::text::to_chars(name);
        if crate::text::same_chars(&chars, &crate::text::to_chars("cpu")) {
            Some(ModuleKind::Cpu)
        } else if crate::text::same_chars(&chars, &crate::text::to_chars("memory")) {
            Some(ModuleKind::Memory)
        } else if crate::text::same_chars(&chars, &crate::text::to_chars("disk")) {
            Some(ModuleKind::Disk)
        } else if crate::text::same_chars(&chars, &crate::text::to_chars("network")) {
            Some(ModuleKind::Network)
        } else if crate::text::same_chars(&chars, &crate::text::to_chars("process")) {
            Some(ModuleKind::Process)
        } else if crate::text::same_chars(&chars, &crate::text::to_chars("system")) {
            Some(ModuleKind::System)
        } else {
            proof {
                assert forall|kind: ModuleKind| name@ != #[trigger] module_name(kind) by {}
            }
            None
        }
    }
}

/// The failure of a module's collector on a sample that yields no metrics.
pub fn refusal(kind: ModuleKind, sample: &Sample) -> (e: GimError)
    ensures
        e matches GimError::Collector { module, source } && module@ == module_name(kind)
            && source@ == refusal_reason(*sample),
{
    let source = match sample {
        Ok(_) => "reading belongs to another module".to_owned(),
        Err(reason) => reason.clone(),
    };
    GimError::Collector { module: kind.name().to_owned(), source }
}

} // verus!
