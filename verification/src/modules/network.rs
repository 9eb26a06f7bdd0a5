//! The network module: the traffic of all interfaces together, and a line
//! for each interface.

use vstd::prelude::*;
use crate::decimal::{push_ratio, ratio_text};
use crate::metric::{contents, put, wrap_signed, MetricData, MetricValue, Pairs, Timestamp, Value};
use crate::modules::disk::{add_capped, capped};
use crate::text::{digits, push_str, push_u64, to_text};

use crate::error::GimError;
use crate::modules::{refusal, MetricCollector, ModuleKind, Reading, Sample};

verus! {

/// Bytes in one kibibyte.
pub const KIBIBYTE: u64 = 1024;

/// Bytes in one mebibyte.
pub const MEBIBYTE: u64 = 1_048_576;

/// Bytes in one gibibyte.
pub const GIBIBYTE: u64 = 1_073_741_824;

/// The traffic of one interface since it came up, in bytes.
#[derive(Debug)]
pub struct InterfaceTraffic {
    pub name: String,
    pub received: u64,
    pub transmitted: u64,
}

/// What the operating system reports of its network interfaces.
#[derive(Debug)]
pub struct NetworkReading {
    pub interfaces: Vec<InterfaceTraffic>,
}

/// Collects the metrics of the network module.
#[derive(Debug)]
pub struct NetworkCollector;

/// A byte count in the largest binary unit that it fills, with two decimals
/// from the kibibyte on.
pub open spec fn bytes_text(bytes: nat) -> Seq<char> {
    if bytes >= GIBIBYTE {
        ratio_text(bytes, GIBIBYTE as nat, 2) + "GB"@
    } else if bytes >= MEBIBYTE {
        ratio_text(bytes, MEBIBYTE as nat, 2) + "MB"@
    } else if bytes >= KIBIBYTE {
        ratio_text(bytes, KIBIBYTE as nat, 2) + "KB"@
    } else {
        digits(bytes) + "B"@
    }
}

/// The line of one interface.
pub open spec fn interface_line(i: InterfaceTraffic) -> Seq<char> {
    i.name@ + ": rx="@ + bytes_text(i.received as nat) + " tx="@ + bytes_text(
        i.transmitted as nat,
    )
}

/// The lines of the interfaces, in their order.
pub open spec fn interface_lines(all: Seq<InterfaceTraffic>) -> Seq<Value> {
    Seq::new(all.len(), |k: int| Value::Text(interface_line(all[k])))
}

/// The bytes received over all interfaces.
pub open spec fn received_sum(all: Seq<InterfaceTraffic>) -> nat
    decreases all.len(),
{
    if all.len() == 0 {
        0
    } else {
        received_sum(all.drop_last()) + all.last().received as nat
    }
}

/// The bytes transmitted over all interfaces.
pub open spec fn transmitted_sum(all: Seq<InterfaceTraffic>) -> nat
    decreases all.len(),
{
    if all.len() == 0 {
        0
    } else {
        transmitted_sum(all.drop_last()) + all.last().transmitted as nat
    }
}

/// The metrics of the network module. The sums are capped at the largest
/// 64-bit count.
pub open spec fn network_pairs(reading: NetworkReading) -> Pairs {
    let all = reading.interfaces@;
    let e0 = Seq::empty();
    let e1 = put(
        e0,
        "total_received_bytes"@,
        Value::Integer(wrap_signed(capped(received_sum(all)) as int)),
    );
    let e2 = put(
        e1,
        "total_transmitted_bytes"@,
        Value::Integer(wrap_signed(capped(transmitted_sum(all)) as int)),
    );
    let e3 = put(e2, "interface_count"@, Value::Integer(wrap_signed(all.len() as int)));
    put(e3, "interfaces"@, Value::List(interface_lines(all)))
}

/// Appends a byte count in the largest binary unit that it fills.
pub fn push_bytes(out: &mut Vec<char>, bytes: u64)
    ensures
        final(out)@ == old(out)@ + bytes_text(bytes as nat),
{
    if bytes >= GIBIBYTE {
        push_ratio(out, bytes, GIBIBYTE, 2);
        push_str(out, "GB");
    } else if bytes >= MEBIBYTE {
        push_ratio(out, bytes, MEBIBYTE, 2);
        push_str(out, "MB");
    } else if bytes >= KIBIBYTE {
        push_ratio(out, bytes, KIBIBYTE, 2);
        push_str(out, "KB");
    } else {
        push_u64(out, bytes);
        push_str(out, "B");
    }
    proof {
        assert(out@ =~= old(out)@ + bytes_text(bytes as nat));
    }
}

/// A byte count in the largest binary unit that it fills.
pub fn format_bytes(bytes: u64) -> (s: String)
    ensures
        s@ == bytes_text(bytes as nat),
{
    let mut out: Vec<char> = Vec::new();
    push_bytes(&mut out, bytes);
    proof {
        assert(out@ =~= bytes_text(bytes as nat));
    }
    to_text(&out)
}

impl NetworkCollector {
    /// A collector for this module.
    pub fn new() -> (r: NetworkCollector)
        ensures
            r.kind() == ModuleKind::Network,
    {
        NetworkCollector
    }


    /// Shapes a reading into the metrics of the module.
    pub fn shape(reading: &NetworkReading, at: Timestamp) -> (data: MetricData)
        ensures
            data.wf(),
            data.moment() == at,
            data.pairs() == network_pairs(*reading),
    {
        let all = &reading.interfaces;
        let mut received: u64 = 0;
        let mut transmitted: u64 = 0;
        let mut lines: Vec<MetricValue> = Vec::new();
        let mut i: usize = 0;
        while i < all.len()
            invariant
                i <= all.len(),
                received == capped(received_sum(all@.take(i as int))),
                transmitted == capped(transmitted_sum(all@.take(i as int))),
                lines.len() == i,
                forall|k: int|
                    0 <= k < i ==> (#[trigger] lines@[k])@ == Value::Text(interface_line(all@[k])),
            decreases all.len() - i,
        {
            proof {
                assert(all@.take(i + 1).drop_last() =~= all@.take(i as int));
            }
            let item = &all[i];
            received = add_capped(received, item.received);
            transmitted = add_capped(transmitted, item.transmitted);
            let mut line: Vec<char> = Vec::new();
            push_str(&mut line, item.name.as_str());
            push_str(&mut line, ": rx=");
            push_bytes(&mut line, item.received);
            push_str(&mut line, " tx=");
            push_bytes(&mut line, item.transmitted);
            proof {
                assert(line@ =~= interface_line(*item));
            }
            lines.push(MetricValue::text(&line));
            i += 1;
        }
        proof {
            assert(all@.take(all.len() as int) =~= all@);
            assert(contents(lines@) =~= interface_lines(all@));
        }
        let data = MetricData::new(at);
        let data = data.with("total_received_bytes".to_owned(), MetricValue::count(received));
        let data = data.with("total_transmitted_bytes".to_owned(), MetricValue::count(transmitted));
        let data = data.with("interface_count".to_owned(), MetricValue::count(all.len() as u64));
        data.with("interfaces".to_owned(), MetricValue::list(lines))
    }
}

impl MetricCollector for NetworkCollector {
    open spec fn kind(&self) -> ModuleKind {
        ModuleKind::Network
    }

    fn name(&self) -> (r: &'static str) {
        "network"
    }

    fn collect(&self, sample: &Sample, at: Timestamp) -> (r: Result<MetricData, GimError>) {
        match sample {
            Ok(Reading::Network(reading)) => Ok(NetworkCollector::shape(reading, at)),
            _ => Err(refusal(ModuleKind::Network, sample)),
        }
    }
}

} // verus!
