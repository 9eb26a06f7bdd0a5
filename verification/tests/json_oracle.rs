use gim::decimal::Decimal;
use gim::json::format_json;
use gim::metric::{MetricData, MetricValue, Timestamp};
use gim::modules::cpu::{CpuCollector, CpuReading};
use gim::modules::disk::{DiskCollector, DiskReading, DiskSpace};
use gim::modules::memory::{MemoryCollector, MemoryReading};
use gim::modules::network::{InterfaceTraffic, NetworkCollector, NetworkReading};
use gim::modules::process::{ProcessCollector, ProcessInfo, ProcessReading};
use gim::modules::system::{SystemCollector, SystemReading};

fn moment() -> Timestamp {
    Timestamp { secs: 1_700_000_000, nanos: 123_456_789 }
}

fn number_of(millionths: i64) -> serde_json::Value {
    let size = millionths.unsigned_abs();
    let sign = if millionths < 0 { "-" } else { "" };
    let text = format!("{}{}.{:06}", sign, size / 1_000_000, size % 1_000_000);
    serde_json::Value::from(text.parse::<f64>().unwrap())
}

fn outside(value: &MetricValue) -> serde_json::Value {
    match value {
        MetricValue::Integer(i) => serde_json::Value::from(*i),
        MetricValue::Float(Decimal::Finite(m)) => number_of(*m),
        MetricValue::Float(Decimal::NaN) => serde_json::Value::from("NaN"),
        MetricValue::Float(Decimal::PosInfinity) => serde_json::Value::from("inf"),
        MetricValue::Float(Decimal::NegInfinity) => serde_json::Value::from("-inf"),
        MetricValue::String(s) => serde_json::Value::from(s.as_str()),
        MetricValue::Boolean(b) => serde_json::Value::from(*b),
        MetricValue::List(items) => serde_json::Value::Array(items.iter().map(outside).collect()),
    }
}

fn document(data: &MetricData) -> serde_json::Value {
    let mut metrics = serde_json::Map::new();
    for (key, value) in data.entries() {
        metrics.insert(key.clone(), outside(value));
    }
    let at = data.timestamp();
    let mut whole = serde_json::Map::new();
    whole.insert("metrics".to_string(), serde_json::Value::Object(metrics));
    whole.insert(
        "timestamp".to_string(),
        serde_json::Value::from(format!("{}.{:09}", at.secs, at.nanos)),
    );
    serde_json::Value::Object(whole)
}

fn same_text(data: &MetricData) {
    let expected = serde_json::to_string_pretty(&document(data)).unwrap();
    assert_eq!(format_json(data), expected);
}

fn same_content(data: &MetricData) {
    let read: serde_json::Value = serde_json::from_str(&format_json(data)).unwrap();
    assert_eq!(read, document(data));
}

#[test]
fn every_character_is_escaped_as_serde_json_escapes_it() {
    let mut all = String::new();
    for code in (0u32..0x300).chain([0x7ff, 0x800, 0x2028, 0x2029, 0xd7ff, 0xe000, 0xfffd, 0xffff, 0x10000, 0x1f600, 0x10ffff]) {
        let Some(c) = char::from_u32(code) else {
            continue;
        };
        all.push(c);
        let mut data = MetricData::new(moment());
        data.insert("value".to_string(), MetricValue::String(c.to_string()));
        data.insert(format!("key{}", c), MetricValue::Boolean(false));
        same_text(&data);
    }
    let mut data = MetricData::new(moment());
    data.insert(all.clone(), MetricValue::String(all));
    same_text(&data);
}

#[test]
fn integers_are_written_as_serde_json_writes_them() {
    let mut data = MetricData::new(moment());
    for (i, value) in [0i64, 1, -1, 9, 10, -10, 1023, 1024, i64::MAX, i64::MIN, i64::MIN + 1]
        .iter()
        .enumerate()
    {
        data.insert(format!("n{:02}", i), MetricValue::Integer(*value));
    }
    same_text(&data);
}

#[test]
fn lists_within_lists_are_laid_out_as_serde_json_lays_them_out() {
    let mut nested = MetricValue::List(vec![]);
    for depth in 0..7i64 {
        nested = MetricValue::List(vec![
            MetricValue::Integer(depth),
            nested,
            MetricValue::String(format!("depth {}", depth)),
            MetricValue::List(vec![]),
            MetricValue::List(vec![MetricValue::Boolean(depth % 2 == 0)]),
        ]);
    }
    let mut data = MetricData::new(moment());
    data.insert("nested".to_string(), nested);
    data.insert("alone".to_string(), MetricValue::List(vec![MetricValue::List(vec![])]));
    data.insert("".to_string(), MetricValue::String(String::new()));
    same_text(&data);
}

#[test]
fn real_numbers_are_written_as_serde_json_writes_them_where_it_writes_decimals() {
    let mut data = MetricData::new(moment());
    let values: [i64; 14] = [
        0, 1_000_000, -1_000_000, 12_500_000, 250_000, -250_000, 100_000_000, 3_141_593,
        -7_000_001, 99_999_999, 1_500, 123_456_789_012, 33_333_333, 100,
    ];
    for (i, value) in values.iter().enumerate() {
        data.insert(format!("r{:02}", i), MetricValue::Float(Decimal::Finite(*value)));
    }
    same_text(&data);
}

#[test]
fn real_numbers_read_back_as_what_they_are() {
    let mut data = MetricData::new(moment());
    let values: [i64; 10] = [
        1, -1, 9, 10, 999_999, i64::MAX, i64::MIN, 1_234_567_890_123_456, -42, 5_000_000_000_001,
    ];
    for (i, value) in values.iter().enumerate() {
        data.insert(format!("r{:02}", i), MetricValue::Float(Decimal::Finite(*value)));
    }
    data.insert("a".to_string(), MetricValue::Float(Decimal::NaN));
    data.insert("b".to_string(), MetricValue::Float(Decimal::PosInfinity));
    data.insert("c".to_string(), MetricValue::Float(Decimal::NegInfinity));
    same_content(&data);
}

#[test]
fn the_records_of_the_collectors_are_what_serde_json_reads() {
    let at = moment();
    let cpu = CpuCollector::shape(
        &CpuReading {
            core_usage: vec![Decimal::Finite(12_340_000), Decimal::Finite(56_780_000)],
            total_memory: 16 << 30,
            used_memory: 5 << 30,
            free_memory: 11 << 30,
            total_swap: 2 << 30,
            used_swap: 0,
            free_swap: 2 << 30,
        },
        at,
    );
    let memory = MemoryCollector::shape(
        &MemoryReading {
            total_memory: 3,
            used_memory: 1,
            free_memory: 2,
            available_memory: 2,
            total_swap: 0,
            used_swap: 0,
            free_swap: 0,
        },
        at,
    );
    let disk = DiskCollector::shape(
        &DiskReading { disks: vec![DiskSpace { total_space: 1000, available_space: 1 }] },
        at,
    );
    let network = NetworkCollector::shape(
        &NetworkReading {
            interfaces: vec![
                InterfaceTraffic { name: "lo".to_string(), received: 1, transmitted: 2 },
                InterfaceTraffic { name: "w\"lan\\0".to_string(), received: 1 << 40, transmitted: 0 },
            ],
        },
        at,
    );
    let process = ProcessCollector::shape(
        &ProcessReading {
            processes: vec![
                ProcessInfo {
                    name: "a\tb".to_string(),
                    pid: 1,
                    memory: 1 << 20,
                    cpu_usage: Decimal::Finite(500_000),
                },
                ProcessInfo {
                    name: "\u{e9}diteur".to_string(),
                    pid: u32::MAX,
                    memory: u64::MAX,
                    cpu_usage: Decimal::NaN,
                },
            ],
        },
        at,
    );
    let system = SystemCollector::shape(
        &SystemReading {
            os_name: Some("Linux".to_string()),
            os_version: None,
            kernel_version: Some("6.1\n".to_string()),
            host_name: Some(String::new()),
            cpu_arch: Some("x86_64".to_string()),
            uptime: u64::MAX,
            load_one: Decimal::Finite(1_250_000),
            load_five: Decimal::Finite(0),
            load_fifteen: Decimal::PosInfinity,
        },
        at,
    );
    for data in [&cpu, &memory, &disk, &network, &process, &system] {
        same_content(data);
    }
    for data in [&disk, &network, &process] {
        same_text(data);
    }
}
