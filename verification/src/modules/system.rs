//! The system module: what the host is, how long it has been up, and its
//! load.

use vstd::prelude::*;
use crate::decimal::Decimal;
use crate::metric::{put, wrap_signed, MetricData, MetricValue, Pairs, Timestamp, Value};
use crate::text::{digits, push_str, push_u64, to_text};

use crate::error::GimError;
use crate::modules::{refusal, MetricCollector, ModuleKind, Reading, Sample};

verus! {

/// What the operating system reports of itself.
#[derive(Debug)]
pub struct SystemReading {
    pub os_name: Option<String>,
    pub os_version: Option<String>,
    pub kernel_version: Option<String>,
    pub host_name: Option<String>,
    pub cpu_arch: Option<String>,
    /// Seconds since the host came up.
    pub uptime: u64,
    pub load_one: Decimal,
    pub load_five: Decimal,
    pub load_fifteen: Decimal,
}

/// Collects the metrics of the system module.
#[derive(Debug)]
pub struct SystemCollector;

/// An uptime in days, hours and minutes; the larger units only where they are
/// not zero.
pub open spec fn uptime_text(secs: nat) -> Seq<char> {
    let days = secs / 86400;
    let hours = (secs % 86400) / 3600;
    let minutes = (secs % 3600) / 60;
    if days > 0 {
        digits(days) + "d "@ + digits(hours) + "h "@ + digits(minutes) + "m"@
    } else if hours > 0 {
        digits(hours) + "h "@ + digits(minutes) + "m"@
    } else {
        digits(minutes) + "m"@
    }
}

/// `pairs` with the text under `key`, if there is one.
pub open spec fn put_text(pairs: Pairs, key: Seq<char>, text: Option<String>) -> Pairs {
    match text {
        Some(t) => put(pairs, key, Value::Text(t@)),
        None => pairs,
    }
}

/// The metrics of the system module. What the host does not tell is left out.
pub open spec fn system_pairs(reading: SystemReading) -> Pairs {
    let e0 = Seq::empty();
    let e1 = put_text(e0, "os_name"@, reading.os_name);
    let e2 = put_text(e1, "os_version"@, reading.os_version);
    let e3 = put_text(e2, "kernel_version"@, reading.kernel_version);
    let e4 = put_text(e3, "hostname"@, reading.host_name);
    let e5 = put_text(e4, "arch"@, reading.cpu_arch);
    let e6 = put(e5, "uptime_seconds"@, Value::Integer(wrap_signed(reading.uptime as int)));
    let e7 = put(e6, "uptime_human"@, Value::Text(uptime_text(reading.uptime as nat)));
    let e8 = put(e7, "load_1m"@, Value::Float(reading.load_one));
    let e9 = put(e8, "load_5m"@, Value::Float(reading.load_five));
    put(e9, "load_15m"@, Value::Float(reading.load_fifteen))
}

/// An uptime in days, hours and minutes.
pub fn format_uptime(secs: u64) -> (s: String)
    ensures
        s@ == uptime_text(secs as nat),
{
    let days: u64 = secs / 86400;
    let hours: u64 = (secs % 86400) / 3600;
    let minutes: u64 = (secs % 3600) / 60;
    let mut out: Vec<char> = Vec::new();
    if days > 0 {
        push_u64(&mut out, days);
        push_str(&mut out, "d ");
        push_u64(&mut out, hours);
        push_str(&mut out, "h ");
        push_u64(&mut out, minutes);
        push_str(&mut out, "m");
    } else if hours > 0 {
        push_u64(&mut out, hours);
        push_str(&mut out, "h ");
        push_u64(&mut out, minutes);
        push_str(&mut out, "m");
    } else {
        push_u64(&mut out, minutes);
        push_str(&mut out, "m");
    }
    proof {
        assert(out@ =~= uptime_text(secs as nat));
    }
    to_text(&out)
}

/// `data` with the text under `key`, if there is one.
fn with_text(data: MetricData, key: &str, text: &Option<String>) -> (r: MetricData)
    requires
        data.wf(),
    ensures
        r.wf(),
        r.moment() == data.moment(),
        r.pairs() == put_text(data.pairs(), key@, *text),
{
    match text {
        Some(t) => data.with(key.to_owned(), MetricValue::String(t.clone())),
        None => data,
    }
}

impl SystemCollector {
    /// A collector for this module.
    pub fn new() -> (r: SystemCollector)
        ensures
            r.kind() == ModuleKind::System,
    {
        SystemCollector
    }


    /// Shapes a reading into the metrics of the module.
    pub fn shape(reading: &SystemReading, at: Timestamp) -> (data: MetricData)
        ensures
            data.wf(),
            data.moment() == at,
            data.pairs() == system_pairs(*reading),
    {
        let data = MetricData::new(at);
        let data = with_text(data, "os_name", &reading.os_name);
        let data = with_text(data, "os_version", &reading.os_version);
        let data = with_text(data, "kernel_version", &reading.kernel_version);
        let data = with_text(data, "hostname", &reading.host_name);
        let data = with_text(data, "arch", &reading.cpu_arch);
        let data = data.with("uptime_seconds".to_owned(), MetricValue::count(reading.uptime));
        let data = data.with(
            "uptime_human".to_owned(),
            MetricValue::String(format_uptime(reading.uptime)),
        );
        let data = data.with("load_1m".to_owned(), MetricValue::Float(reading.load_one));
        let data = data.with("load_5m".to_owned(), MetricValue::Float(reading.load_five));
        data.with("load_15m".to_owned(), MetricValue::Float(reading.load_fifteen))
    }
}

impl MetricCollector for SystemCollector {
    open spec fn kind(&self) -> ModuleKind {
        ModuleKind::System
    }

    fn name(&self) -> (r: &'static str) {
        "system"
    }

    fn collect(&self, sample: &Sample, at: Timestamp) -> (r: Result<MetricData, GimError>) {
        match sample {
            Ok(Reading::System(reading)) => Ok(SystemCollector::shape(reading, at)),
            _ => Err(refusal(ModuleKind::System, sample)),
        }
    }
}

} // verus!
