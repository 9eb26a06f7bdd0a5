//! The processor module: the mean usage over the cores and their number,
//! with the memory figures that go with them.

use vstd::prelude::*;
use crate::decimal::{mean_of, Decimal};
use crate::metric::{put, wrap_signed, MetricData, MetricValue, Pairs, Timestamp, Value};

use crate::error::GimError;
use crate::modules::{refusal, MetricCollector, ModuleKind, Reading, Sample};

verus! {

/// What the operating system reports of its processors and memory.
#[derive(Debug)]
pub struct CpuReading {
    /// The usage of each core in percent, measured over the sampling window.
    pub core_usage: Vec<Decimal>,
    pub total_memory: u64,
    pub used_memory: u64,
    pub free_memory: u64,
    pub total_swap: u64,
    pub used_swap: u64,
    pub free_swap: u64,
}

/// Collects the metrics of the processor module.
#[derive(Debug)]
pub struct CpuCollector {}

/// The metrics of the processor module. The usage is the mean over the cores.
pub open spec fn cpu_pairs(reading: CpuReading) -> Pairs {
    let e0 = Seq::empty();
    let e1 = put(e0, "cpu_usage_percent"@, Value::Float(mean_of(reading.core_usage@)));
    let e2 = put(e1, "cpu_count"@, Value::Integer(wrap_signed(reading.core_usage@.len() as int)));
    let e3 = put(e2, "total_memory_bytes"@, Value::Integer(wrap_signed(reading.total_memory as int)));
    let e4 = put(e3, "used_memory_bytes"@, Value::Integer(wrap_signed(reading.used_memory as int)));
    let e5 = put(e4, "free_memory_bytes"@, Value::Integer(wrap_signed(reading.free_memory as int)));
    let e6 = put(e5, "total_swap_bytes"@, Value::Integer(wrap_signed(reading.total_swap as int)));
    let e7 = put(e6, "used_swap_bytes"@, Value::Integer(wrap_signed(reading.used_swap as int)));
    put(e7, "free_swap_bytes"@, Value::Integer(wrap_signed(reading.free_swap as int)))
}

impl CpuCollector {
    /// A collector for this module.
    pub fn new() -> (r: CpuCollector)
        ensures
            r.kind() == ModuleKind::Cpu,
    {
        CpuCollector {  }
    }


    /// Shapes a reading into the metrics of the module.
    pub fn shape(reading: &CpuReading, at: Timestamp) -> (data: MetricData)
        ensures
            data.wf(),
            data.moment() == at,
            data.pairs() == cpu_pairs(*reading),
    {
        let usage = Decimal::mean(&reading.core_usage);
        let data = MetricData::new(at);
        let data = data.with("cpu_usage_percent".to_owned(), MetricValue::Float(usage));
        let data = data.with(
            "cpu_count".to_owned(),
            MetricValue::count(reading.core_usage.len() as u64),
        );
        let data = data.with("total_memory_bytes".to_owned(), MetricValue::count(reading.total_memory));
        let data = data.with("used_memory_bytes".to_owned(), MetricValue::count(reading.used_memory));
        let data = data.with("free_memory_bytes".to_owned(), MetricValue::count(reading.free_memory));
        let data = data.with("total_swap_bytes".to_owned(), MetricValue::count(reading.total_swap));
        let data = data.with("used_swap_bytes".to_owned(), MetricValue::count(reading.used_swap));
        data.with("free_swap_bytes".to_owned(), MetricValue::count(reading.free_swap))
    }
}

impl MetricCollector for CpuCollector {
    open spec fn kind(&self) -> ModuleKind {
        ModuleKind::Cpu
    }

    fn name(&self) -> (r: &'static str) {
        "cpu"
    }

    fn collect(&self, sample: &Sample, at: Timestamp) -> (r: Result<MetricData, GimError>) {
        match sample {
            Ok(Reading::Cpu(reading)) => Ok(CpuCollector::shape(reading, at)),
            _ => Err(refusal(ModuleKind::Cpu, sample)),
        }
    }
}

} // verus!
