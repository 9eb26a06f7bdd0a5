//! The disk module: the space of all disks together and the share in use.

use vstd::prelude::*;
use crate::decimal::{percent_of, Decimal};
use crate::metric::{put, wrap_signed, MetricData, MetricValue, Pairs, Timestamp, Value};

use crate::error::GimError;
use crate::modules::{refusal, MetricCollector, ModuleKind, Reading, Sample};

verus! {

/// The space of one disk, in bytes.
#[derive(Clone, Copy, PartialEq, Eq, Structural, Debug)]
pub struct DiskSpace {
    pub total_space: u64,
    pub available_space: u64,
}

/// What the operating system reports of its disks.
#[derive(Debug)]
pub struct DiskReading {
    pub disks: Vec<DiskSpace>,
}

/// Collects the metrics of the disk module.
#[derive(Debug)]
pub struct DiskCollector;

/// The sum of the total space of the disks.
pub open spec fn total_space(disks: Seq<DiskSpace>) -> nat
    decreases disks.len(),
{
    if disks.len() == 0 {
        0
    } else {
        total_space(disks.drop_last()) + disks.last().total_space as nat
    }
}

/// The sum of the available space of the disks.
pub open spec fn available_space(disks: Seq<DiskSpace>) -> nat
    decreases disks.len(),
{
    if disks.len() == 0 {
        0
    } else {
        available_space(disks.drop_last()) + disks.last().available_space as nat
    }
}

/// A count held in 64 bits: itself, or the largest such number if it is larger.
pub open spec fn capped(n: nat) -> nat {
    if n > u64::MAX {
        u64::MAX as nat
    } else {
        n
    }
}

/// The bytes in use: the total less what is free, and zero where more is free
/// than there is in total.
pub open spec fn used_space(total: nat, free: nat) -> nat {
    if total >= free {
        (total - free) as nat
    } else {
        0
    }
}

/// The metrics of the disk module. The sums are capped at the largest 64-bit
/// count; the usage is the used share of the total in percent, and zero where
/// the total is zero.
pub open spec fn disk_pairs(reading: DiskReading) -> Pairs {
    let total = capped(total_space(reading.disks@));
    let free = capped(available_space(reading.disks@));
    let used = used_space(total, free);
    let e0 = Seq::empty();
    let e1 = put(e0, "total_bytes"@, Value::Integer(wrap_signed(total as int)));
    let e2 = put(e1, "used_bytes"@, Value::Integer(wrap_signed(used as int)));
    let e3 = put(e2, "free_bytes"@, Value::Integer(wrap_signed(free as int)));
    let e4 = put(e3, "usage_percent"@, Value::Float(percent_of(used, total)));
    put(e4, "disk_count"@, Value::Integer(wrap_signed(reading.disks@.len() as int)))
}

/// `a + b`, or the largest 64-bit count if the sum is larger.
pub fn add_capped(a: u64, b: u64) -> (r: u64)
    ensures
        r == capped((a + b) as nat),
{
    if a > u64::MAX - b {
        u64::MAX
    } else {
        a + b
    }
}

impl DiskCollector {
    /// A collector for this module.
    pub fn new() -> (r: DiskCollector)
        ensures
            r.kind() == ModuleKind::Disk,
    {
        DiskCollector
    }


    /// Shapes a reading into the metrics of the module.
    pub fn shape(reading: &DiskReading, at: Timestamp) -> (data: MetricData)
        ensures
            data.wf(),
            data.moment() == at,
            data.pairs() == disk_pairs(*reading),
    {
        let disks = &reading.disks;
        let mut total: u64 = 0;
        let mut free: u64 = 0;
        let mut i: usize = 0;
        while i < disks.len()
            invariant
                i <= disks.len(),
                total == capped(total_space(disks@.take(i as int))),
                free == capped(available_space(disks@.take(i as int))),
            decreases disks.len() - i,
        {
            proof {
                assert(disks@.take(i + 1).drop_last() =~= disks@.take(i as int));
            }
            total = add_capped(total, disks[i].total_space);
            free = add_capped(free, disks[i].available_space);
            i += 1;
        }
        proof {
            assert(disks@.take(disks.len() as int) =~= disks@);
        }
        let used: u64 = if total >= free {
            total - free
        } else {
            0
        };
        let usage = Decimal::percent(used, total);
        let data = MetricData::new(at);
        let data = data.with("total_bytes".to_owned(), MetricValue::count(total));
        let data = data.with("used_bytes".to_owned(), MetricValue::count(used));
        let data = data.with("free_bytes".to_owned(), MetricValue::count(free));
        let data = data.with("usage_percent".to_owned(), MetricValue::Float(usage));
        data.with("disk_count".to_owned(), MetricValue::count(disks.len() as u64))
    }
}

impl MetricCollector for DiskCollector {
    open spec fn kind(&self) -> ModuleKind {
        ModuleKind::Disk
    }

    fn name(&self) -> (r: &'static str) {
        "disk"
    }

    fn collect(&self, sample: &Sample, at: Timestamp) -> (r: Result<MetricData, GimError>) {
        match sample {
            Ok(Reading::Disk(reading)) => Ok(DiskCollector::shape(reading, at)),
            _ => Err(refusal(ModuleKind::Disk, sample)),
        }
    }
}

} // verus!
