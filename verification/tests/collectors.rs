use gim::decimal::Decimal;
use gim::metric::{MetricData, MetricValue, Timestamp};
use gim::modules::cpu::{CpuCollector, CpuReading};
use gim::modules::disk::{add_capped, DiskCollector, DiskReading, DiskSpace};
use gim::modules::memory::{MemoryCollector, MemoryReading};
use gim::modules::network::{format_bytes, InterfaceTraffic, NetworkCollector, NetworkReading};
use gim::modules::process::{top_indices, ProcessCollector, ProcessInfo, ProcessReading};
use gim::modules::system::{format_uptime, SystemCollector, SystemReading};
use gim::modules::{MetricCollector, ModuleKind, Reading, Sample};

fn at() -> Timestamp {
    Timestamp { secs: 1_700_000_000, nanos: 0 }
}

fn keys(data: &MetricData) -> Vec<String> {
    data.entries().iter().map(|entry| entry.0.clone()).collect()
}

fn integer(data: &MetricData, key: &str) -> i64 {
    match data.get(key) {
        Some(MetricValue::Integer(i)) => *i,
        other => panic!("{}: {:?}", key, other),
    }
}

fn decimal_at(data: &MetricData, key: &str) -> Decimal {
    match data.get(key) {
        Some(MetricValue::Float(d)) => *d,
        other => panic!("{}: {:?}", key, other),
    }
}

fn text(data: &MetricData, key: &str) -> String {
    match data.get(key) {
        Some(MetricValue::String(s)) => s.clone(),
        other => panic!("{}: {:?}", key, other),
    }
}

fn lines(data: &MetricData, key: &str) -> Vec<String> {
    match data.get(key) {
        Some(MetricValue::List(items)) => items
            .iter()
            .map(|item| match item {
                MetricValue::String(s) => s.clone(),
                other => panic!("{:?}", other),
            })
            .collect(),
        other => panic!("{}: {:?}", key, other),
    }
}

fn memory_reading(total: u64, used: u64) -> MemoryReading {
    MemoryReading {
        total_memory: total,
        used_memory: used,
        free_memory: total.saturating_sub(used),
        available_memory: 11,
        total_swap: 12,
        used_swap: 13,
        free_swap: 14,
    }
}

fn process(name: &str, pid: u32, memory: u64, cpu: i64) -> ProcessInfo {
    ProcessInfo { name: name.to_string(), pid, memory, cpu_usage: Decimal::Finite(cpu) }
}

#[test]
fn collectors_name_their_modules() {
    assert_eq!(CpuCollector::new().name(), "cpu");
    assert_eq!(MemoryCollector::new().name(), "memory");
    assert_eq!(DiskCollector::new().name(), "disk");
    assert_eq!(NetworkCollector::new().name(), "network");
    assert_eq!(ProcessCollector::new().name(), "process");
    assert_eq!(SystemCollector::new().name(), "system");
}

#[test]
fn module_names_and_kinds() {
    let all = [
        (ModuleKind::Cpu, "cpu"),
        (ModuleKind::Memory, "memory"),
        (ModuleKind::Disk, "disk"),
        (ModuleKind::Network, "network"),
        (ModuleKind::Process, "process"),
        (ModuleKind::System, "system"),
    ];
    for (kind, name) in all {
        assert_eq!(kind.name(), name);
        assert_eq!(ModuleKind::parse(name), Some(kind));
    }
    assert_eq!(ModuleKind::parse("bogus"), None);
    assert_eq!(ModuleKind::parse("CPU"), None);
    assert_eq!(ModuleKind::parse(""), None);
    assert_eq!(ModuleKind::parse("cpu "), None);
}

#[test]
fn memory_metrics() {
    let data = MemoryCollector::shape(&memory_reading(8_000, 2_000), at());
    assert_eq!(
        keys(&data),
        vec![
            "available_memory_bytes",
            "free_memory_bytes",
            "free_swap_bytes",
            "memory_usage_percent",
            "total_memory_bytes",
            "total_swap_bytes",
            "used_memory_bytes",
            "used_swap_bytes",
        ]
    );
    assert_eq!(integer(&data, "total_memory_bytes"), 8_000);
    assert_eq!(integer(&data, "used_memory_bytes"), 2_000);
    assert_eq!(integer(&data, "free_memory_bytes"), 6_000);
    assert_eq!(integer(&data, "available_memory_bytes"), 11);
    assert_eq!(integer(&data, "total_swap_bytes"), 12);
    assert_eq!(integer(&data, "used_swap_bytes"), 13);
    assert_eq!(integer(&data, "free_swap_bytes"), 14);
    assert_eq!(decimal_at(&data, "memory_usage_percent"), Decimal::Finite(25_000_000));
    assert_eq!(data.timestamp(), at());
}

#[test]
fn memory_usage_without_memory_is_zero() {
    let data = MemoryCollector::shape(&memory_reading(0, 0), at());
    assert_eq!(decimal_at(&data, "memory_usage_percent"), Decimal::Finite(0));
    let odd = MemoryCollector::shape(&memory_reading(0, 5), at());
    assert_eq!(decimal_at(&odd, "memory_usage_percent"), Decimal::Finite(0));
}

#[test]
fn memory_usage_is_rounded_to_the_millionth() {
    let data = MemoryCollector::shape(&memory_reading(3, 1), at());
    assert_eq!(decimal_at(&data, "memory_usage_percent"), Decimal::Finite(33_333_333));
    let data = MemoryCollector::shape(&memory_reading(16_000_000_000, 12_345_678_901), at());
    assert_eq!(decimal_at(&data, "memory_usage_percent"), Decimal::Finite(77_160_493));
}

#[test]
fn cpu_metrics() {
    let reading = CpuReading {
        core_usage: vec![
            Decimal::Finite(10_000_000),
            Decimal::Finite(20_000_000),
            Decimal::Finite(30_000_000),
            Decimal::Finite(41_000_000),
        ],
        total_memory: 100,
        used_memory: 60,
        free_memory: 40,
        total_swap: 10,
        used_swap: 4,
        free_swap: 6,
    };
    let data = CpuCollector::shape(&reading, at());
    assert_eq!(
        keys(&data),
        vec![
            "cpu_count",
            "cpu_usage_percent",
            "free_memory_bytes",
            "free_swap_bytes",
            "total_memory_bytes",
            "total_swap_bytes",
            "used_memory_bytes",
            "used_swap_bytes",
        ]
    );
    assert_eq!(decimal_at(&data, "cpu_usage_percent"), Decimal::Finite(25_250_000));
    assert_eq!(integer(&data, "cpu_count"), 4);
    assert_eq!(integer(&data, "total_memory_bytes"), 100);
    assert_eq!(integer(&data, "used_memory_bytes"), 60);
    assert_eq!(integer(&data, "free_memory_bytes"), 40);
    assert_eq!(integer(&data, "total_swap_bytes"), 10);
    assert_eq!(integer(&data, "used_swap_bytes"), 4);
    assert_eq!(integer(&data, "free_swap_bytes"), 6);
}

#[test]
fn cpu_usage_without_cores_is_not_a_number() {
    let reading = CpuReading {
        core_usage: vec![],
        total_memory: 0,
        used_memory: 0,
        free_memory: 0,
        total_swap: 0,
        used_swap: 0,
        free_swap: 0,
    };
    let data = CpuCollector::shape(&reading, at());
    assert_eq!(decimal_at(&data, "cpu_usage_percent"), Decimal::NaN);
    assert_eq!(integer(&data, "cpu_count"), 0);
}

#[test]
fn disk_metrics() {
    let reading = DiskReading {
        disks: vec![
            DiskSpace { total_space: 1_000, available_space: 250 },
            DiskSpace { total_space: 3_000, available_space: 750 },
        ],
    };
    let data = DiskCollector::shape(&reading, at());
    assert_eq!(
        keys(&data),
        vec!["disk_count", "free_bytes", "total_bytes", "usage_percent", "used_bytes"]
    );
    assert_eq!(integer(&data, "total_bytes"), 4_000);
    assert_eq!(integer(&data, "free_bytes"), 1_000);
    assert_eq!(integer(&data, "used_bytes"), 3_000);
    assert_eq!(integer(&data, "disk_count"), 2);
    assert_eq!(decimal_at(&data, "usage_percent"), Decimal::Finite(75_000_000));
}

#[test]
fn disk_metrics_without_disks() {
    let data = DiskCollector::shape(&DiskReading { disks: vec![] }, at());
    assert_eq!(integer(&data, "total_bytes"), 0);
    assert_eq!(integer(&data, "used_bytes"), 0);
    assert_eq!(integer(&data, "free_bytes"), 0);
    assert_eq!(integer(&data, "disk_count"), 0);
    assert_eq!(decimal_at(&data, "usage_percent"), Decimal::Finite(0));
}

#[test]
fn disk_with_more_free_than_total_uses_nothing() {
    let reading = DiskReading { disks: vec![DiskSpace { total_space: 10, available_space: 30 }] };
    let data = DiskCollector::shape(&reading, at());
    assert_eq!(integer(&data, "used_bytes"), 0);
    assert_eq!(decimal_at(&data, "usage_percent"), Decimal::Finite(0));
}

#[test]
fn disk_sums_are_capped() {
    assert_eq!(add_capped(1, 2), 3);
    assert_eq!(add_capped(u64::MAX, 1), u64::MAX);
    assert_eq!(add_capped(u64::MAX - 1, 1), u64::MAX);
    assert_eq!(add_capped(1 << 63, 1 << 63), u64::MAX);
    let reading = DiskReading {
        disks: vec![
            DiskSpace { total_space: u64::MAX - 5, available_space: 1 },
            DiskSpace { total_space: 100, available_space: 1 },
        ],
    };
    let data = DiskCollector::shape(&reading, at());
    assert_eq!(integer(&data, "total_bytes"), -1);
    assert_eq!(integer(&data, "free_bytes"), 2);
    assert_eq!(integer(&data, "used_bytes"), (u64::MAX - 2) as i64);
}

#[test]
fn network_metrics() {
    let reading = NetworkReading {
        interfaces: vec![
            InterfaceTraffic { name: "lo".to_string(), received: 512, transmitted: 1024 },
            InterfaceTraffic {
                name: "eth0".to_string(),
                received: 3 * 1_048_576 + 524_288,
                transmitted: 2 * 1_073_741_824,
            },
        ],
    };
    let data = NetworkCollector::shape(&reading, at());
    assert_eq!(
        keys(&data),
        vec!["interface_count", "interfaces", "total_received_bytes", "total_transmitted_bytes"]
    );
    assert_eq!(integer(&data, "total_received_bytes"), 512 + 3 * 1_048_576 + 524_288);
    assert_eq!(integer(&data, "total_transmitted_bytes"), 1024 + 2 * 1_073_741_824);
    assert_eq!(integer(&data, "interface_count"), 2);
    assert_eq!(
        lines(&data, "interfaces"),
        vec!["lo: rx=512B tx=1.00KB", "eth0: rx=3.50MB tx=2.00GB"]
    );
}

#[test]
fn network_metrics_without_interfaces() {
    let data = NetworkCollector::shape(&NetworkReading { interfaces: vec![] }, at());
    assert_eq!(integer(&data, "interface_count"), 0);
    assert_eq!(integer(&data, "total_received_bytes"), 0);
    assert!(lines(&data, "interfaces").is_empty());
}

#[test]
fn byte_counts_of_interfaces() {
    assert_eq!(format_bytes(0), "0B");
    assert_eq!(format_bytes(1023), "1023B");
    assert_eq!(format_bytes(1024), "1.00KB");
    assert_eq!(format_bytes(1536), "1.50KB");
    assert_eq!(format_bytes(1_048_575), "1024.00KB");
    assert_eq!(format_bytes(1_048_576), "1.00MB");
    assert_eq!(format_bytes(1_073_741_823), "1024.00MB");
    assert_eq!(format_bytes(1_073_741_824), "1.00GB");
    assert_eq!(format_bytes(u64::MAX), "17179869184.00GB");
}

#[test]
fn process_metrics() {
    let reading = ProcessReading {
        processes: vec![
            process("init", 1, 10 * 1_048_576, 0),
            process("db", 20, 512 * 1_048_576 + 524_288, 45_670_000),
            process("web", 300, 64 * 1_048_576, 99_950_000),
        ],
    };
    let data = ProcessCollector::shape(&reading, at());
    assert_eq!(keys(&data), vec!["top_by_cpu", "top_by_memory", "total_processes"]);
    assert_eq!(integer(&data, "total_processes"), 3);
    assert_eq!(
        lines(&data, "top_by_memory"),
        vec![
            "db (pid 20) \u{2014} 512.5MB",
            "web (pid 300) \u{2014} 64.0MB",
            "init (pid 1) \u{2014} 10.0MB",
        ]
    );
    assert_eq!(
        lines(&data, "top_by_cpu"),
        vec![
            "web (pid 300) \u{2014} 100.0%",
            "db (pid 20) \u{2014} 45.7%",
            "init (pid 1) \u{2014} 0.0%",
        ]
    );
}

#[test]
fn process_lists_name_five_at_most_and_keep_the_order_of_equals() {
    let memory: [u64; 8] = [10, 50, 50, 5, 70, 50, 1, 100];
    let processes: Vec<ProcessInfo> = memory
        .iter()
        .enumerate()
        .map(|(i, m)| process(&format!("job{}", i), i as u32, m * 1_048_576, 1_000_000))
        .collect();
    let data = ProcessCollector::shape(&ProcessReading { processes }, at());
    assert_eq!(integer(&data, "total_processes"), 8);
    assert_eq!(
        lines(&data, "top_by_memory"),
        vec![
            "job7 (pid 7) \u{2014} 100.0MB",
            "job4 (pid 4) \u{2014} 70.0MB",
            "job1 (pid 1) \u{2014} 50.0MB",
            "job2 (pid 2) \u{2014} 50.0MB",
            "job5 (pid 5) \u{2014} 50.0MB",
        ]
    );
    assert_eq!(
        lines(&data, "top_by_cpu"),
        vec![
            "job0 (pid 0) \u{2014} 1.0%",
            "job1 (pid 1) \u{2014} 1.0%",
            "job2 (pid 2) \u{2014} 1.0%",
            "job3 (pid 3) \u{2014} 1.0%",
            "job4 (pid 4) \u{2014} 1.0%",
        ]
    );
}

#[test]
fn process_metrics_without_processes() {
    let data = ProcessCollector::shape(&ProcessReading { processes: vec![] }, at());
    assert_eq!(integer(&data, "total_processes"), 0);
    assert!(lines(&data, "top_by_memory").is_empty());
    assert!(lines(&data, "top_by_cpu").is_empty());
}

#[test]
fn the_foremost_places_are_those_of_a_stable_descending_sort() {
    let cases: Vec<Vec<i128>> = vec![
        vec![],
        vec![5],
        vec![1, 2, 3, 4, 5, 6, 7],
        vec![7, 6, 5, 4, 3, 2, 1],
        vec![3, 3, 3, 3, 3, 3, 3],
        vec![0, -1, 9, 9, -1, 0, 9, 2, 2, 100, -100, 9],
        vec![i128::MAX, i128::MIN, 0, i128::MAX, i128::MIN],
    ];
    for keys in cases {
        for limit in [0usize, 1, 2, 5, 6, 20] {
            let mut expected: Vec<usize> = (0..keys.len()).collect();
            expected.sort_by(|a, b| keys[*b].cmp(&keys[*a]));
            expected.truncate(limit);
            assert_eq!(top_indices(&keys, limit), expected);
        }
    }
}

#[test]
fn system_metrics() {
    let reading = SystemReading {
        os_name: Some("Linux".to_string()),
        os_version: Some("6.1".to_string()),
        kernel_version: Some("6.1.0-18".to_string()),
        host_name: Some("box".to_string()),
        cpu_arch: Some("x86_64".to_string()),
        uptime: 90_061,
        load_one: Decimal::Finite(1_500_000),
        load_five: Decimal::Finite(750_000),
        load_fifteen: Decimal::Finite(10_000),
    };
    let data = SystemCollector::shape(&reading, at());
    assert_eq!(
        keys(&data),
        vec![
            "arch",
            "hostname",
            "kernel_version",
            "load_15m",
            "load_1m",
            "load_5m",
            "os_name",
            "os_version",
            "uptime_human",
            "uptime_seconds",
        ]
    );
    assert_eq!(text(&data, "os_name"), "Linux");
    assert_eq!(text(&data, "os_version"), "6.1");
    assert_eq!(text(&data, "kernel_version"), "6.1.0-18");
    assert_eq!(text(&data, "hostname"), "box");
    assert_eq!(text(&data, "arch"), "x86_64");
    assert_eq!(integer(&data, "uptime_seconds"), 90_061);
    assert_eq!(text(&data, "uptime_human"), "1d 1h 1m");
    assert_eq!(decimal_at(&data, "load_1m"), Decimal::Finite(1_500_000));
    assert_eq!(decimal_at(&data, "load_5m"), Decimal::Finite(750_000));
    assert_eq!(decimal_at(&data, "load_15m"), Decimal::Finite(10_000));
}

#[test]
fn system_metrics_leave_out_what_is_unknown() {
    let reading = SystemReading {
        os_name: None,
        os_version: None,
        kernel_version: Some("k".to_string()),
        host_name: None,
        cpu_arch: None,
        uptime: 0,
        load_one: Decimal::Finite(0),
        load_five: Decimal::Finite(0),
        load_fifteen: Decimal::Finite(0),
    };
    let data = SystemCollector::shape(&reading, at());
    assert_eq!(
        keys(&data),
        vec!["kernel_version", "load_15m", "load_1m", "load_5m", "uptime_human", "uptime_seconds"]
    );
    assert!(data.get("os_name").is_none());
    assert_eq!(text(&data, "uptime_human"), "0m");
}

#[test]
fn uptimes() {
    assert_eq!(format_uptime(0), "0m");
    assert_eq!(format_uptime(59), "0m");
    assert_eq!(format_uptime(60), "1m");
    assert_eq!(format_uptime(3_599), "59m");
    assert_eq!(format_uptime(3_600), "1h 0m");
    assert_eq!(format_uptime(3_660), "1h 1m");
    assert_eq!(format_uptime(86_399), "23h 59m");
    assert_eq!(format_uptime(86_400), "1d 0h 0m");
    assert_eq!(format_uptime(90_061), "1d 1h 1m");
    assert_eq!(format_uptime(u64::MAX), "213503982334601d 7h 0m");
}

#[test]
fn a_collector_shapes_the_reading_of_its_module() {
    let sample: Sample = Ok(Reading::Memory(memory_reading(100, 50)));
    let data = MemoryCollector::new().collect(&sample, at()).unwrap();
    assert_eq!(decimal_at(&data, "memory_usage_percent"), Decimal::Finite(50_000_000));
    assert_eq!(data.timestamp(), at());
    let disks: Sample = Ok(Reading::Disk(DiskReading { disks: vec![] }));
    assert!(DiskCollector::new().collect(&disks, at()).is_ok());
}

#[test]
fn a_collector_fails_where_the_source_failed() {
    let sample: Sample = Err("permission denied".to_string());
    let error = CpuCollector::new().collect(&sample, at()).unwrap_err();
    assert_eq!(error.message(), "failed to collect cpu metrics: permission denied");
    assert_eq!(error.exit_code(), 2);
    let error = SystemCollector::new().collect(&sample, at()).unwrap_err();
    assert_eq!(error.message(), "failed to collect system metrics: permission denied");
}

#[test]
fn a_collector_refuses_the_reading_of_another_module() {
    let sample: Sample = Ok(Reading::Memory(memory_reading(100, 50)));
    let error = DiskCollector::new().collect(&sample, at()).unwrap_err();
    assert_eq!(
        error.message(),
        "failed to collect disk metrics: reading belongs to another module"
    );
    assert!(NetworkCollector::new().collect(&sample, at()).is_err());
    assert!(ProcessCollector::new().collect(&sample, at()).is_err());
    assert!(CpuCollector::new().collect(&sample, at()).is_err());
}
