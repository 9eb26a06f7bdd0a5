use gim::config::Config;
use gim::decimal::Decimal;
use gim::engine::Engine;
use gim::metric::Timestamp;
use gim::modules::disk::DiskReading;
use gim::modules::memory::MemoryReading;
use gim::modules::network::NetworkReading;
use gim::modules::{Reading, Sample};
use gim::tui::{command_for, next_tab, remaining_wait, Action, App, Command, Event, Key, KeyKind, Phase};

fn at() -> Timestamp {
    Timestamp { secs: 10, nanos: 0 }
}

fn names(list: &[&str]) -> Vec<String> {
    list.iter().map(|name| name.to_string()).collect()
}

fn reading(name: &str) -> Sample {
    Ok(match name {
        "memory" => Reading::Memory(MemoryReading {
            total_memory: 4,
            used_memory: 1,
            free_memory: 3,
            available_memory: 3,
            total_swap: 0,
            used_swap: 0,
            free_swap: 0,
        }),
        "disk" => Reading::Disk(DiskReading { disks: vec![] }),
        _ => Reading::Network(NetworkReading { interfaces: vec![] }),
    })
}

fn samples(list: &[&str]) -> Vec<Sample> {
    list.iter().map(|name| reading(name)).collect()
}

fn app_with(list: &[&str]) -> App {
    let engine = Engine::new(&names(list)).unwrap();
    App::new(engine, Config::default())
}

fn running(list: &[&str]) -> App {
    let mut app = app_with(list);
    assert_eq!(app.step(Event::Prepared), Action::Collect);
    assert_eq!(app.step(Event::Collected { samples: samples(list), at: at() }), Action::Draw);
    assert_eq!(app.phase(), Phase::Running);
    app
}

fn press(app: &mut App, key: Key) {
    app.handle_key(key, KeyKind::Press);
}

#[test]
fn a_new_dashboard_has_not_started() {
    let app = app_with(&["memory", "disk"]);
    assert_eq!(app.phase(), Phase::Initializing);
    assert_eq!(app.tab_count(), 0);
    assert_eq!(app.selected_tab(), 0);
    assert!(!app.should_quit());
    assert!(app.snapshot().is_none());
    assert_eq!(app.module_names(), vec!["memory", "disk"]);
    assert!(app.outcome().is_ok());
}

#[test]
fn keys_and_what_they_ask_for() {
    let press = KeyKind::Press;
    assert_eq!(command_for(Key::Char('q'), press), Command::Quit);
    assert_eq!(command_for(Key::Esc, press), Command::Quit);
    assert_eq!(command_for(Key::Tab, press), Command::NextTab);
    assert_eq!(command_for(Key::Right, press), Command::NextTab);
    assert_eq!(command_for(Key::Char('l'), press), Command::NextTab);
    assert_eq!(command_for(Key::BackTab, press), Command::PreviousTab);
    assert_eq!(command_for(Key::Left, press), Command::PreviousTab);
    assert_eq!(command_for(Key::Char('h'), press), Command::PreviousTab);
    assert_eq!(command_for(Key::Char('Q'), press), Command::Nothing);
    assert_eq!(command_for(Key::Char('x'), press), Command::Nothing);
    assert_eq!(command_for(Key::Other, press), Command::Nothing);
}

#[test]
fn only_a_press_counts() {
    for kind in [KeyKind::Release, KeyKind::Repeat] {
        for key in [Key::Char('q'), Key::Esc, Key::Tab, Key::Left, Key::Char('h'), Key::Other] {
            assert_eq!(command_for(key, kind), Command::Nothing);
        }
    }
    let mut app = running(&["memory", "disk"]);
    app.handle_key(Key::Char('q'), KeyKind::Release);
    app.handle_key(Key::Tab, KeyKind::Repeat);
    assert!(!app.should_quit());
    assert_eq!(app.selected_tab(), 0);
}

#[test]
fn tabs_go_forward_and_round() {
    let mut app = running(&["memory", "disk", "network"]);
    assert_eq!(app.tab_count(), 3);
    press(&mut app, Key::Tab);
    assert_eq!(app.selected_tab(), 1);
    press(&mut app, Key::Right);
    assert_eq!(app.selected_tab(), 2);
    press(&mut app, Key::Char('l'));
    assert_eq!(app.selected_tab(), 0);
}

#[test]
fn tabs_go_backward_and_round() {
    let mut app = running(&["memory", "disk", "network"]);
    press(&mut app, Key::BackTab);
    assert_eq!(app.selected_tab(), 2);
    press(&mut app, Key::Left);
    assert_eq!(app.selected_tab(), 1);
    press(&mut app, Key::Char('h'));
    assert_eq!(app.selected_tab(), 0);
}

#[test]
fn without_tabs_nothing_moves() {
    let mut app = app_with(&[]);
    press(&mut app, Key::Tab);
    assert_eq!(app.selected_tab(), 0);
    press(&mut app, Key::BackTab);
    assert_eq!(app.selected_tab(), 0);
    let mut empty = running(&[]);
    assert_eq!(empty.tab_count(), 0);
    press(&mut empty, Key::Right);
    press(&mut empty, Key::Left);
    assert_eq!(empty.selected_tab(), 0);
    assert!(!empty.should_quit());
}

#[test]
fn one_tab_stays_selected() {
    let mut app = running(&["disk"]);
    press(&mut app, Key::Tab);
    assert_eq!(app.selected_tab(), 0);
    press(&mut app, Key::BackTab);
    assert_eq!(app.selected_tab(), 0);
}

#[test]
fn the_next_tab_among_some() {
    for count in 1usize..6 {
        assert_eq!(next_tab(Command::NextTab, count - 1, count), 0);
        assert_eq!(next_tab(Command::PreviousTab, 0, count), count - 1);
        for selected in 0..count {
            let forward = next_tab(Command::NextTab, selected, count);
            assert_eq!(forward, (selected + 1) % count);
            assert_eq!(next_tab(Command::PreviousTab, forward, count), selected);
            assert_eq!(next_tab(Command::Quit, selected, count), selected);
            assert_eq!(next_tab(Command::Nothing, selected, count), selected);
        }
    }
    assert_eq!(next_tab(Command::NextTab, 0, 0), 0);
    assert_eq!(next_tab(Command::PreviousTab, 0, 0), 0);
    assert_eq!(next_tab(Command::NextTab, usize::MAX, 0), usize::MAX);
    assert_eq!(next_tab(Command::NextTab, usize::MAX, 4), 0);
    assert_eq!(next_tab(Command::NextTab, usize::MAX, usize::MAX), 1);
}

#[test]
fn quitting_keys() {
    let mut app = running(&["disk"]);
    press(&mut app, Key::Char('q'));
    assert!(app.should_quit());
    let mut other = running(&["disk"]);
    press(&mut other, Key::Esc);
    assert!(other.should_quit());
    press(&mut other, Key::Tab);
    assert!(other.should_quit());
}

#[test]
fn the_wait_is_what_is_left_of_the_interval() {
    assert_eq!(remaining_wait(1000, 0), 1000);
    assert_eq!(remaining_wait(1000, 250), 750);
    assert_eq!(remaining_wait(1000, 999), 1);
    assert_eq!(remaining_wait(1000, 1000), 0);
    assert_eq!(remaining_wait(1000, 5000), 0);
    assert_eq!(remaining_wait(0, 0), 0);
    assert_eq!(remaining_wait(u64::MAX, 1), u64::MAX - 1);
}

#[test]
fn the_loop_from_start_to_quit() {
    let list = ["memory", "disk"];
    let mut app = app_with(&list);
    assert_eq!(app.step(Event::Prepared), Action::Collect);
    assert_eq!(app.phase(), Phase::Initializing);
    assert_eq!(app.step(Event::Collected { samples: samples(&list), at: at() }), Action::Draw);
    assert_eq!(app.phase(), Phase::Running);
    assert_eq!(app.tab_count(), 2);
    assert_eq!(app.step(Event::Drawn { elapsed_ms: 3 }), Action::Wait { timeout_ms: 997 });
    assert_eq!(app.step(Event::Waited { key: None, elapsed_ms: 400 }), Action::Draw);
    assert_eq!(app.step(Event::Drawn { elapsed_ms: 400 }), Action::Wait { timeout_ms: 600 });
    assert_eq!(
        app.step(Event::Waited { key: Some((Key::Tab, KeyKind::Press)), elapsed_ms: 700 }),
        Action::Draw
    );
    assert_eq!(app.selected_tab(), 1);
    assert_eq!(app.step(Event::Drawn { elapsed_ms: 705 }), Action::Wait { timeout_ms: 295 });
    assert_eq!(app.step(Event::Waited { key: None, elapsed_ms: 1000 }), Action::Collect);
    assert_eq!(
        app.step(Event::Collected { samples: samples(&["memory"]), at: at() }),
        Action::Draw
    );
    assert_eq!(app.tab_count(), 1);
    assert_eq!(app.step(Event::Drawn { elapsed_ms: 0 }), Action::Wait { timeout_ms: 1000 });
    assert_eq!(
        app.step(Event::Waited { key: Some((Key::Char('q'), KeyKind::Press)), elapsed_ms: 10 }),
        Action::Restore
    );
    assert_eq!(app.phase(), Phase::Quitting);
    assert_eq!(app.step(Event::Restored { failure: None }), Action::Exit);
    assert_eq!(app.phase(), Phase::Done);
    assert!(app.outcome().is_ok());
    assert_eq!(app.step(Event::Prepared), Action::Exit);
}

#[test]
fn the_wait_never_outlasts_the_interval() {
    let mut app = running(&["memory"]);
    assert_eq!(app.step(Event::Drawn { elapsed_ms: 0 }), Action::Wait { timeout_ms: 1000 });
    assert_eq!(app.step(Event::Drawn { elapsed_ms: 999 }), Action::Wait { timeout_ms: 1 });
    assert_eq!(app.step(Event::Drawn { elapsed_ms: 1000 }), Action::Wait { timeout_ms: 0 });
    assert_eq!(app.step(Event::Drawn { elapsed_ms: u64::MAX }), Action::Wait { timeout_ms: 0 });
    assert_eq!(app.phase(), Phase::Running);
}

#[test]
fn a_round_is_made_when_due_even_with_a_key() {
    let mut app = running(&["memory", "disk"]);
    assert_eq!(
        app.step(Event::Waited { key: Some((Key::Right, KeyKind::Press)), elapsed_ms: 1500 }),
        Action::Collect
    );
    assert_eq!(app.selected_tab(), 1);
    assert_eq!(
        app.step(Event::Waited { key: Some((Key::Right, KeyKind::Release)), elapsed_ms: 1000 }),
        Action::Collect
    );
    assert_eq!(app.selected_tab(), 1);
}

#[test]
fn a_quit_comes_before_a_round() {
    let mut app = running(&["memory"]);
    assert_eq!(
        app.step(Event::Waited { key: Some((Key::Esc, KeyKind::Press)), elapsed_ms: 5000 }),
        Action::Restore
    );
    assert_eq!(app.phase(), Phase::Quitting);
}

#[test]
fn the_dashboard_follows_its_own_refresh_rate() {
    let mut config = Config::default();
    config.tui.refresh_ms = Some(250);
    let engine = Engine::new(&names(&["disk"])).unwrap();
    let mut app = App::new(engine, config);
    app.step(Event::Prepared);
    assert_eq!(app.step(Event::Collected { samples: samples(&["disk"]), at: at() }), Action::Draw);
    assert_eq!(app.step(Event::Drawn { elapsed_ms: 100 }), Action::Wait { timeout_ms: 150 });
    assert_eq!(app.step(Event::Waited { key: None, elapsed_ms: 100 }), Action::Draw);
    assert_eq!(app.step(Event::Waited { key: None, elapsed_ms: 250 }), Action::Collect);
}

#[test]
fn a_failure_while_running_restores_the_terminal() {
    let mut app = running(&["memory"]);
    assert_eq!(app.step(Event::Failed { reason: "draw failed".to_string() }), Action::Restore);
    assert_eq!(app.phase(), Phase::Quitting);
    assert_eq!(app.step(Event::Waited { key: None, elapsed_ms: 0 }), Action::Restore);
    assert_eq!(app.step(Event::Failed { reason: "again".to_string() }), Action::Restore);
    assert_eq!(app.phase(), Phase::Quitting);
    assert_eq!(
        app.step(Event::Restored { failure: Some("restore failed".to_string()) }),
        Action::Exit
    );
    let error = app.outcome().unwrap_err();
    assert_eq!(error.message(), "TUI error: draw failed");
    assert_eq!(error.exit_code(), 6);
}

#[test]
fn a_failure_while_preparing_restores_the_terminal() {
    let mut app = app_with(&["memory"]);
    assert_eq!(app.step(Event::Failed { reason: "no terminal".to_string() }), Action::Restore);
    assert_eq!(app.phase(), Phase::Quitting);
    assert_eq!(app.step(Event::Restored { failure: None }), Action::Exit);
    assert_eq!(app.outcome().unwrap_err().message(), "TUI error: no terminal");
}

#[test]
fn a_failed_restoration_is_reported() {
    let mut app = running(&["memory"]);
    app.step(Event::Waited { key: Some((Key::Char('q'), KeyKind::Press)), elapsed_ms: 0 });
    assert_eq!(
        app.step(Event::Restored { failure: Some("cursor".to_string()) }),
        Action::Exit
    );
    assert_eq!(app.outcome().unwrap_err().message(), "TUI error: cursor");
}

#[test]
fn events_out_of_turn_change_nothing() {
    let mut fresh = app_with(&["memory"]);
    assert_eq!(fresh.step(Event::Waited { key: None, elapsed_ms: 0 }), Action::Prepare);
    assert_eq!(fresh.step(Event::Drawn { elapsed_ms: 0 }), Action::Prepare);
    assert_eq!(fresh.step(Event::Restored { failure: None }), Action::Prepare);
    assert_eq!(fresh.phase(), Phase::Initializing);
    let mut app = running(&["memory"]);
    assert_eq!(app.step(Event::Prepared), Action::Draw);
    assert_eq!(app.step(Event::Restored { failure: None }), Action::Draw);
    assert_eq!(app.phase(), Phase::Running);
    assert_eq!(app.tab_count(), 1);
}

#[test]
fn a_refresh_replaces_the_snapshot() {
    let mut app = app_with(&["memory", "disk"]);
    app.refresh(&samples(&["memory", "disk"]), at());
    assert_eq!(app.tab_count(), 2);
    let later = Timestamp { secs: 11, nanos: 0 };
    let given: Vec<Sample> = vec![Err("gone".to_string()), reading("disk")];
    app.refresh(&given, later);
    assert_eq!(app.tab_count(), 1);
    let snapshot = app.snapshot().unwrap();
    assert_eq!(snapshot.modules[0].0, "disk");
    assert_eq!(snapshot.modules[0].1.timestamp(), later);
    assert_eq!(app.config().tui_refresh_ms(), 1000);
    let _ = Decimal::Finite(0);
}
