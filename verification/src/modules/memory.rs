//! The memory module: main memory and swap, and the share of memory in use.

use vstd::prelude::*;
use crate::decimal::{percent_of, Decimal};
use crate::metric::{put, wrap_signed, MetricData, MetricValue, Pairs, Timestamp, Value};

use crate::error::GimError;
use crate::modules::{refusal, MetricCollector, ModuleKind, Reading, Sample};

verus! {

/// What the operating system reports of its memory, in bytes.
#[derive(Clone, Copy, PartialEq, Eq, Structural, Debug)]
pub struct MemoryReading {
    pub total_memory: u64,
    pub used_memory: u64,
    pub free_memory: u64,
    pub available_memory: u64,
    pub total_swap: u64,
    pub used_swap: u64,
    pub free_swap: u64,
}

/// Collects the metrics of the memory module.
#[derive(Debug)]
pub struct MemoryCollector {}

/// The metrics of the memory module. The usage is the used share of the total
/// in percent, and zero where the total is zero.
pub open spec fn memory_pairs(reading: MemoryReading) -> Pairs {
    let e0 = Seq::empty();
    let e1 = put(e0, "total_memory_bytes"@, Value::Integer(wrap_signed(reading.total_memory as int)));
    let e2 = put(e1, "used_memory_bytes"@, Value::Integer(wrap_signed(reading.used_memory as int)));
    let e3 = put(e2, "free_memory_bytes"@, Value::Integer(wrap_signed(reading.free_memory as int)));
    let e4 = put(
        e3,
        "available_memory_bytes"@,
        Value::Integer(wrap_signed(reading.available_memory as int)),
    );
    let e5 = put(e4, "total_swap_bytes"@, Value::Integer(wrap_signed(reading.total_swap as int)));
    let e6 = put(e5, "used_swap_bytes"@, Value::Integer(wrap_signed(reading.used_swap as int)));
    let e7 = put(e6, "free_swap_bytes"@, Value::Integer(wrap_signed(reading.free_swap as int)));
    put(
        e7,
        "memory_usage_percent"@,
        Value::Float(percent_of(reading.used_memory as nat, reading.total_memory as nat)),
    )
}

impl MemoryCollector {
    /// A collector for this module.
    pub fn new() -> (r: MemoryCollector)
        ensures
            r.kind() == ModuleKind::Memory,
    {
        MemoryCollector {  }
    }


    /// Shapes a reading into the metrics of the module.
    pub fn shape(reading: &MemoryReading, at: Timestamp) -> (data: MetricData)
        ensures
            data.wf(),
            data.moment() == at,
            data.pairs() == memory_pairs(*reading),
    {
        let data = MetricData::new(at);
        let data = data.with("total_memory_bytes".to_owned(), MetricValue::count(reading.total_memory));
        let data = data.with("used_memory_bytes".to_owned(), MetricValue::count(reading.used_memory));
        let data = data.with("free_memory_bytes".to_owned(), MetricValue::count(reading.free_memory));
        let data = data.with(
            "available_memory_bytes".to_owned(),
            MetricValue::count(reading.available_memory),
        );
        let data = data.with("total_swap_bytes".to_owned(), MetricValue::count(reading.total_swap));
        let data = data.with("used_swap_bytes".to_owned(), MetricValue::count(reading.used_swap));
        let data = data.with("free_swap_bytes".to_owned(), MetricValue::count(reading.free_swap));
        let usage = Decimal::percent(reading.used_memory, reading.total_memory);
        data.with("memory_usage_percent".to_owned(), MetricValue::Float(usage))
    }
}

impl MetricCollector for MemoryCollector {
    open spec fn kind(&self) -> ModuleKind {
        ModuleKind::Memory
    }

    fn name(&self) -> (r: &'static str) {
        "memory"
    }

    fn collect(&self, sample: &Sample, at: Timestamp) -> (r: Result<MetricData, GimError>) {
        match sample {
            Ok(Reading::Memory(reading)) => Ok(MemoryCollector::shape(reading, at)),
            _ => Err(refusal(ModuleKind::Memory, sample)),
        }
    }
}

} // verus!
