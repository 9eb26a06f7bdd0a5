use gim::cli::{split, Cli, Invocation, Subcommand};
use gim::config::Config;
use gim::decimal::Decimal;
use gim::engine::Engine;
use gim::error::GimError;
use gim::metric::Timestamp;
use gim::modules::cpu::CpuReading;
use gim::modules::disk::DiskReading;
use gim::modules::memory::MemoryReading;
use gim::modules::{Reading, Sample};
use gim::output::{format_snapshot, OutputFormat};

fn print(module: Option<&str>, output: Option<&str>, watch: bool) -> Cli {
    Cli {
        command: Some(Subcommand::Print {
            module: module.map(|m| m.to_string()),
            output: output.map(|o| o.to_string()),
            watch,
        }),
        config: None,
        no_config: false,
    }
}

fn tui(module: Option<&str>) -> Cli {
    Cli {
        command: Some(Subcommand::Tui { module: module.map(|m| m.to_string()) }),
        config: None,
        no_config: false,
    }
}

fn reading(name: &str) -> Sample {
    Ok(match name {
        "cpu" => Reading::Cpu(CpuReading {
            core_usage: vec![Decimal::Finite(50_000_000)],
            total_memory: 1,
            used_memory: 1,
            free_memory: 0,
            total_swap: 0,
            used_swap: 0,
            free_swap: 0,
        }),
        "memory" => Reading::Memory(MemoryReading {
            total_memory: 4,
            used_memory: 1,
            free_memory: 3,
            available_memory: 3,
            total_swap: 0,
            used_swap: 0,
            free_swap: 0,
        }),
        _ => Reading::Disk(DiskReading { disks: vec![] }),
    })
}

#[test]
fn splitting_at_commas() {
    assert_eq!(split("cpu,memory", ','), vec!["cpu", "memory"]);
    assert_eq!(split("cpu", ','), vec!["cpu"]);
    assert_eq!(split("", ','), vec![""]);
    assert_eq!(split(",", ','), vec!["", ""]);
    assert_eq!(split("a,,b,", ','), vec!["a", "", "b", ""]);
    assert_eq!(split(" a , b", ','), vec![" a ", " b"]);
    for text in ["", "x", ",x", "x,", "a,b,c", ",,,", "é,ü"] {
        let expected: Vec<&str> = text.split(',').collect();
        assert_eq!(split(text, ','), expected);
        assert_eq!(split(text, ',').join(","), text);
    }
}

#[test]
fn printing_with_the_configured_defaults() {
    let cli = Cli { command: None, config: None, no_config: false };
    match cli.resolve(&Config::default()).unwrap() {
        Invocation::Print { modules, format, watch } => {
            assert_eq!(modules, vec!["system", "cpu", "memory", "disk", "network", "process"]);
            assert_eq!(format, OutputFormat::Table);
            assert!(!watch);
        }
        other => panic!("{:?}", other),
    }
    assert!(cli.reads_config());
    let without = Cli { command: None, config: None, no_config: true };
    assert!(!without.reads_config());
}

#[test]
fn what_is_given_comes_before_what_is_configured() {
    let mut config = Config::default();
    config.print.output = "raw".to_string();
    match print(Some("disk,cpu"), Some("json"), false).resolve(&config).unwrap() {
        Invocation::Print { modules, format, watch } => {
            assert_eq!(modules, vec!["disk", "cpu"]);
            assert_eq!(format, OutputFormat::Json);
            assert!(!watch);
        }
        other => panic!("{:?}", other),
    }
    match print(None, None, false).resolve(&config).unwrap() {
        Invocation::Print { format, .. } => assert_eq!(format, OutputFormat::Raw),
        other => panic!("{:?}", other),
    }
}

#[test]
fn watching_by_flag_or_by_configuration() {
    let mut config = Config::default();
    assert!(matches!(
        print(None, None, true).resolve(&config).unwrap(),
        Invocation::Print { watch: true, .. }
    ));
    config.print.watch = true;
    assert!(matches!(
        print(None, None, false).resolve(&config).unwrap(),
        Invocation::Print { watch: true, .. }
    ));
    let bare = Cli { command: None, config: None, no_config: false };
    assert!(matches!(bare.resolve(&config).unwrap(), Invocation::Print { watch: true, .. }));
}

#[test]
fn the_dashboard_takes_modules_only() {
    let mut config = Config::default();
    config.print.output = "nonsense".to_string();
    match tui(Some("memory")).resolve(&config).unwrap() {
        Invocation::Tui { modules } => assert_eq!(modules, vec!["memory"]),
        other => panic!("{:?}", other),
    }
    match tui(None).resolve(&config).unwrap() {
        Invocation::Tui { modules } => assert_eq!(modules.len(), 6),
        other => panic!("{:?}", other),
    }
}

#[test]
fn an_unknown_module_ends_the_run() {
    let error = print(Some("disk,bogus"), None, false).resolve(&Config::default()).unwrap_err();
    assert!(matches!(error, GimError::UnknownModule(_)));
    assert_eq!(error.message(), "unknown module: bogus");
    assert_eq!(error.exit_code(), 1);
    let error = tui(Some("cpu,,memory")).resolve(&Config::default()).unwrap_err();
    assert_eq!(error.message(), "unknown module: ");
    let error = print(Some("nope,json"), Some("xml"), false).resolve(&Config::default()).unwrap_err();
    assert_eq!(error.message(), "unknown module: nope");
    let mut config = Config::default();
    config.general.default_modules = vec!["cpu".to_string(), "gpu".to_string()];
    let error = print(None, None, false).resolve(&config).unwrap_err();
    assert_eq!(error.message(), "unknown module: gpu");
}

#[test]
fn an_unknown_format_ends_the_run() {
    let error = print(Some("cpu"), Some("xml"), false).resolve(&Config::default()).unwrap_err();
    assert!(matches!(error, GimError::UnknownFormat(_)));
    assert_eq!(error.message(), "unknown output format: xml");
    assert_eq!(error.exit_code(), 8);
    let mut config = Config::default();
    config.print.output = "yaml".to_string();
    let bare = Cli { command: None, config: None, no_config: false };
    assert_eq!(bare.resolve(&config).unwrap_err().message(), "unknown output format: yaml");
}

#[test]
fn default_modules_as_json_print_two_blocks() {
    let mut config = Config::default();
    config.general.default_modules = vec!["cpu".to_string(), "memory".to_string()];
    let cli = print(None, Some("json"), false);
    let (modules, format) = match cli.resolve(&config).unwrap() {
        Invocation::Print { modules, format, watch } => {
            assert!(!watch);
            (modules, format)
        }
        other => panic!("{:?}", other),
    };
    assert_eq!(format, OutputFormat::Json);
    let engine = Engine::new(&modules).unwrap();
    let samples: Vec<Sample> = engine.module_names().iter().map(|name| reading(name)).collect();
    let snapshot = engine.collect_once(&samples, Timestamp { secs: 5, nanos: 0 });
    let text = format_snapshot(&snapshot, format);
    let headings: Vec<&str> = text.lines().filter(|line| line.starts_with("=== ")).collect();
    assert_eq!(headings, vec!["=== CPU ===", "=== MEMORY ==="]);
    assert!(!text.contains("DISK"));
    assert!(!text.contains("NETWORK"));
    assert!(!text.contains("disk"));
    assert!(!text.contains("network"));
    let blocks: Vec<&str> = text.split("=== ").filter(|block| !block.is_empty()).collect();
    assert_eq!(blocks.len(), 2);
    for block in blocks {
        let body = block.split_once(" ===\n").unwrap().1;
        let parsed: serde_json::Value = serde_json::from_str(body).unwrap();
        assert!(parsed["metrics"].is_object());
        assert_eq!(parsed["timestamp"], serde_json::Value::from("5.000000000"));
    }
}

#[test]
fn an_unknown_module_prints_no_metrics() {
    let cli = print(Some("disk,bogus"), None, false);
    let resolved = cli.resolve(&Config::default());
    assert!(resolved.is_err());
    assert_eq!(resolved.unwrap_err().exit_code(), 1);
    let names = vec!["disk".to_string(), "bogus".to_string()];
    assert!(matches!(Engine::new(&names), Err(GimError::UnknownModule(_))));
}
