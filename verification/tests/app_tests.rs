use rmon::app::{sum_counters, App, DiskInfo, Readings, SortKey, Tick, HISTORY_LEN};
use rmon::config::{Config, ConfigFile, MonitorSection, ThemeSection};
use rmon::handlers::{handle_key, handle_mouse, Action, KeyCode, KeyInput, MouseInput, MouseKind};
use rmon::layout::Rect;
use rmon::process::{sort_processes, ProcessInfo};

/// The order key of a non-negative CPU percentage.
fn cpu(x: f32) -> u32 {
    x.to_bits() | 0x8000_0000
}

fn sample() -> Vec<ProcessInfo> {
    vec![
        ProcessInfo { pid: 3, name: "Zebra".into(), cpu: cpu(10.0), mem: 100, status: "R".into() },
        ProcessInfo { pid: 1, name: "alpha".into(), cpu: cpu(90.0), mem: 900, status: "S".into() },
        ProcessInfo { pid: 2, name: "Beta".into(), cpu: cpu(50.0), mem: 500, status: "T".into() },
    ]
}

fn pids(list: &[ProcessInfo]) -> Vec<u32> {
    list.iter().map(|p| p.pid).collect()
}

fn key(c: char) -> KeyInput {
    KeyInput { code: KeyCode::Char(c), ctrl: false }
}

fn readings(processes: Vec<ProcessInfo>) -> Readings {
    Readings {
        processes,
        cpu_sample: 100,
        memory_sample: 200,
        core_samples: vec![10, 20],
        disks: Vec::new(),
        net_down_speed: 1,
        net_up_speed: 2,
        net_down_total: 3,
        net_up_total: 4,
    }
}

#[test]
fn cpu_sorted_descending_by_default() {
    let mut list = sample();
    sort_processes(&mut list, SortKey::Cpu, true);
    assert_eq!(pids(&list), vec![1, 2, 3]);
}

#[test]
fn memory_sorted_descending() {
    let mut list = sample();
    sort_processes(&mut list, SortKey::Memory, true);
    assert_eq!(pids(&list), vec![1, 2, 3]);
}

#[test]
fn name_sorted_ascending_case_insensitive() {
    let mut list = sample();
    sort_processes(&mut list, SortKey::Name, false);
    assert_eq!(pids(&list), vec![1, 2, 3]);
}

#[test]
fn pid_sorted_ascending() {
    let mut list = sample();
    sort_processes(&mut list, SortKey::Pid, false);
    assert_eq!(pids(&list), vec![1, 2, 3]);
}

#[test]
fn ascending_flips_order() {
    let mut list = sample();
    sort_processes(&mut list, SortKey::Cpu, false);
    assert_eq!(pids(&list), vec![3, 2, 1]);
}

#[test]
fn cycle_sort_toggles_descending_only_for_numeric_keys() {
    let mut app = App { sort: SortKey::Cpu, sort_desc: true, ..Default::default() };
    app.cycle_sort();
    assert_eq!(app.sort, SortKey::Memory);
    assert!(app.sort_desc);
    app.cycle_sort();
    assert_eq!(app.sort, SortKey::Name);
    assert!(!app.sort_desc);
    app.cycle_sort();
    assert_eq!(app.sort, SortKey::Pid);
    assert!(!app.sort_desc);
    app.cycle_sort();
    assert_eq!(app.sort, SortKey::Cpu);
    assert!(app.sort_desc);
}

#[test]
fn sort_key_parsing() {
    assert_eq!("cpu".parse(), Ok(SortKey::Cpu));
    assert_eq!("MEM".parse(), Ok(SortKey::Memory));
    assert_eq!("name".parse(), Ok(SortKey::Name));
    assert_eq!("pid".parse(), Ok(SortKey::Pid));
    assert_eq!("bogus".parse::<SortKey>(), Err(()));
    assert!(SortKey::Cpu.is_numeric());
    assert!(!SortKey::Name.is_numeric());
}

#[test]
fn config_applies_sort_refresh_and_theme() {
    let cfg = Config {
        file: Some(ConfigFile {
            theme: Some(ThemeSection { name: Some("nord".into()), colors: None }),
            monitor: Some(MonitorSection {
                refresh_ms: Some(250),
                sort: Some("name".into()),
                max_processes: Some(50),
            }),
        }),
        path: None,
    };
    let app = App::with_config(cfg);
    assert_eq!(app.sort, SortKey::Name);
    assert!(!app.sort_desc);
    assert_eq!(app.interval_ms, 250);
    assert_eq!(app.max_processes, 50);
    assert_eq!(app.theme.name, "nord");
}

#[test]
fn sort_key_parsing_trims_and_accepts_memory() {
    assert_eq!(SortKey::parse("  Memory \t"), Ok(SortKey::Memory));
    assert_eq!(SortKey::parse("cpu%"), Err(()));
    assert_eq!(SortKey::Name.label(), "NAME");
    assert_eq!(SortKey::Memory.label(), "MEM");
}

#[test]
fn sort_is_stable_for_equal_keys() {
    let mut list = vec![
        ProcessInfo { pid: 7, name: "b".into(), cpu: cpu(0.0), mem: 5, status: "S".into() },
        ProcessInfo { pid: 8, name: "B".into(), cpu: cpu(0.0), mem: 5, status: "S".into() },
        ProcessInfo { pid: 9, name: "a".into(), cpu: cpu(0.0), mem: 1, status: "S".into() },
    ];
    sort_processes(&mut list, SortKey::Name, false);
    assert_eq!(pids(&list), vec![9, 7, 8]);
    sort_processes(&mut list, SortKey::Memory, false);
    assert_eq!(pids(&list), vec![9, 7, 8]);
    sort_processes(&mut list, SortKey::Memory, true);
    assert_eq!(pids(&list), vec![8, 7, 9]);
}

#[test]
fn settings_are_clamped() {
    let cfg = Config {
        file: Some(ConfigFile {
            theme: Some(ThemeSection { name: Some("neon".into()), colors: None }),
            monitor: Some(MonitorSection { refresh_ms: Some(10), sort: Some("bogus".into()), max_processes: Some(0) }),
        }),
        path: None,
    };
    let app = App::with_config(cfg);
    assert_eq!(app.interval_ms, 200);
    assert_eq!(app.max_processes, 1);
    assert_eq!(app.sort, SortKey::Cpu);
    assert!(app.sort_desc);
    assert_eq!(app.theme.name, "dark");
    let slow = App::with_config(Config {
        file: Some(ConfigFile {
            theme: None,
            monitor: Some(MonitorSection { refresh_ms: Some(99_999), sort: None, max_processes: None }),
        }),
        path: None,
    });
    assert_eq!(slow.interval_ms, 5000);
    assert_eq!(slow.max_processes, 300);
    let plain = App::new();
    assert_eq!(plain.interval_ms, 1000);
    assert_eq!(plain.theme.name, "dark");
}

#[test]
fn speed_changes_stay_in_range() {
    let mut app = App::new();
    app.speed_up();
    assert_eq!(app.interval_ms, 500);
    app.speed_up();
    assert_eq!(app.interval_ms, 250);
    app.speed_up();
    assert_eq!(app.interval_ms, 200);
    for _ in 0..10 {
        app.speed_down();
    }
    assert_eq!(app.interval_ms, 5000);
}

#[test]
fn refresh_lists_and_clamps_selection() {
    let mut app = App::with_config(Config {
        file: Some(ConfigFile {
            theme: None,
            monitor: Some(MonitorSection { refresh_ms: None, sort: None, max_processes: Some(2) }),
        }),
        path: None,
    });
    app.selected = Some(5);
    app.refresh(readings(sample()));
    assert_eq!(pids(&app.processes), vec![1, 2]);
    assert_eq!(app.all_processes.len(), 3);
    assert_eq!(app.process_count, 3);
    assert_eq!(app.selected, Some(1));
    assert_eq!(app.cpu_history, vec![100]);
    assert_eq!(app.memory_history, vec![200]);
    assert_eq!(app.core_history, vec![vec![10], vec![20]]);
    assert_eq!((app.net_down_speed, app.net_up_speed, app.net_down_total, app.net_up_total), (1, 2, 3, 4));
    app.refresh(readings(Vec::new()));
    assert_eq!(app.selected, None);
    assert!(app.processes.is_empty());
}

#[test]
fn histories_keep_the_latest_samples() {
    let mut app = App::new();
    for i in 0..(HISTORY_LEN as u64 + 5) {
        let mut r = readings(Vec::new());
        r.cpu_sample = i;
        r.core_samples = vec![i];
        app.refresh(r);
    }
    assert_eq!(app.cpu_history.len(), HISTORY_LEN);
    assert_eq!(app.cpu_history[0], 5);
    assert_eq!(*app.cpu_history.back().unwrap(), HISTORY_LEN as u64 + 4);
    assert_eq!(app.core_history.len(), 1);
    assert_eq!(app.core_history[0].len(), HISTORY_LEN);
    let mut r = readings(Vec::new());
    r.core_samples = vec![1, 2, 3];
    app.refresh(r);
    assert_eq!(app.core_history, vec![vec![1], vec![2], vec![3]]);
}

#[test]
fn disk_used_space_saturates() {
    let d = DiskInfo::from_space("sda".into(), "/".into(), "SSD".into(), "ext4".into(), 100, 30);
    assert_eq!(d.used, 70);
    let d = DiskInfo::from_space("sdb".into(), "/m".into(), "HDD".into(), "xfs".into(), 100, 130);
    assert_eq!(d.used, 0);
}

#[test]
fn keys_move_and_jump() {
    let mut app = App::new();
    app.refresh(readings(sample()));
    assert_eq!(app.selected, Some(0));
    assert_eq!(handle_key(&mut app, KeyInput { code: KeyCode::Down, ctrl: false }), Action::Nothing);
    assert_eq!(app.selected, Some(1));
    handle_key(&mut app, KeyInput { code: KeyCode::PageDown, ctrl: false });
    assert_eq!(app.selected, Some(2));
    handle_key(&mut app, key('k'));
    assert_eq!(app.selected, Some(1));
    handle_key(&mut app, KeyInput { code: KeyCode::PageUp, ctrl: false });
    assert_eq!(app.selected, Some(0));
    handle_key(&mut app, KeyInput { code: KeyCode::End, ctrl: false });
    assert_eq!(app.selected, Some(2));
    handle_key(&mut app, KeyInput { code: KeyCode::Home, ctrl: false });
    assert_eq!(app.selected, Some(0));
    assert_eq!(handle_key(&mut app, key('r')), Action::Refresh);
    handle_key(&mut app, key('p'));
    assert!(app.paused);
    handle_key(&mut app, key('p'));
    assert!(!app.paused);
    handle_key(&mut app, key('-'));
    assert_eq!(app.interval_ms, 2000);
    handle_key(&mut app, key(']'));
    assert_eq!(app.interval_ms, 1000);
    handle_key(&mut app, key('s'));
    assert_eq!(app.sort, SortKey::Memory);
    handle_key(&mut app, key('c'));
    assert!(!app.should_quit);
    handle_key(&mut app, KeyInput { code: KeyCode::Char('c'), ctrl: true });
    assert!(app.should_quit);
}

#[test]
fn kill_needs_confirmation() {
    let mut app = App::new();
    app.refresh(readings(sample()));
    handle_key(&mut app, KeyInput { code: KeyCode::Down, ctrl: false });
    assert_eq!(handle_key(&mut app, key('d')), Action::Nothing);
    assert_eq!(app.confirm, Some((2, "Beta".to_string())));
    // Other keys wait.
    assert_eq!(handle_key(&mut app, key('s')), Action::Nothing);
    assert_eq!(app.sort, SortKey::Cpu);
    assert_eq!(handle_key(&mut app, key('n')), Action::Nothing);
    assert_eq!(app.confirm, None);
    handle_key(&mut app, KeyInput { code: KeyCode::Delete, ctrl: false });
    assert_eq!(handle_key(&mut app, KeyInput { code: KeyCode::Enter, ctrl: false }), Action::Kill(2));
    assert_eq!(app.confirm, None);
    handle_key(&mut app, key('d'));
    assert_eq!(handle_key(&mut app, key('q')), Action::Nothing);
    assert!(app.should_quit);
}

#[test]
fn confirm_kill_without_request_does_nothing() {
    let mut app = App::new();
    assert_eq!(app.confirm_kill(), None);
    app.request_kill();
    assert_eq!(app.confirm, None);
}

#[test]
fn mouse_scrolls_and_clicks_rows() {
    let mut app = App::new();
    app.refresh(readings(sample()));
    handle_mouse(&mut app, MouseInput { kind: MouseKind::ScrollDown, column: 0, row: 0 });
    assert_eq!(app.selected, Some(1));
    handle_mouse(&mut app, MouseInput { kind: MouseKind::ScrollUp, column: 0, row: 0 });
    assert_eq!(app.selected, Some(0));
    app.table_area = Some(Rect { x: 0, y: 10, width: 40, height: 10 });
    handle_mouse(&mut app, MouseInput { kind: MouseKind::LeftDown, column: 5, row: 13 });
    assert_eq!(app.selected, Some(1));
    handle_mouse(&mut app, MouseInput { kind: MouseKind::LeftDown, column: 5, row: 19 });
    assert_eq!(app.selected, Some(2));
    // The header rows and clicks outside the table select nothing.
    handle_mouse(&mut app, MouseInput { kind: MouseKind::LeftDown, column: 5, row: 11 });
    assert_eq!(app.selected, Some(2));
    handle_mouse(&mut app, MouseInput { kind: MouseKind::LeftDown, column: 50, row: 13 });
    assert_eq!(app.selected, Some(2));
    app.request_kill();
    handle_mouse(&mut app, MouseInput { kind: MouseKind::ScrollUp, column: 0, row: 0 });
    assert_eq!(app.selected, Some(2));
}

#[test]
fn clicks_follow_the_scroll_offset() {
    let mut rows = Vec::new();
    for pid in 0..30u32 {
        rows.push(ProcessInfo { pid, name: format!("p{pid}"), cpu: cpu(0.0), mem: 0, status: "S".into() });
    }
    let mut app = App::new();
    app.sort = SortKey::Pid;
    app.sort_desc = false;
    app.refresh(readings(rows));
    app.table_area = Some(Rect { x: 0, y: 10, width: 40, height: 10 });
    app.table_offset = 20;
    handle_mouse(&mut app, MouseInput { kind: MouseKind::LeftDown, column: 5, row: 13 });
    assert_eq!(app.selected, Some(21));
    assert_eq!(app.processes[21].pid, 21);
    handle_mouse(&mut app, MouseInput { kind: MouseKind::LeftDown, column: 5, row: 19 });
    assert_eq!(app.selected, Some(27));
    app.table_offset = 28;
    handle_mouse(&mut app, MouseInput { kind: MouseKind::LeftDown, column: 5, row: 19 });
    assert_eq!(app.selected, Some(29));
}

#[test]
fn ticks_refresh_only_when_running() {
    let mut app = App::new();
    assert_eq!(app.tick(999), Tick::Wait);
    assert_eq!(app.tick(1000), Tick::Refresh);
    assert_eq!(app.poll_timeout_ms(400), 600);
    assert_eq!(app.poll_timeout_ms(1400), 0);
    handle_key(&mut app, key('p'));
    assert_eq!(app.tick(5000), Tick::Restart);
    assert_eq!(app.tick(10), Tick::Wait);
}

#[test]
fn counters_add_up() {
    assert_eq!(sum_counters(&vec![]), Some(0));
    assert_eq!(sum_counters(&vec![1, 2, 3]), Some(6));
    assert_eq!(sum_counters(&vec![u64::MAX, 0]), Some(u64::MAX));
    assert_eq!(sum_counters(&vec![u64::MAX, 1]), None);
}

#[test]
fn close_cpu_values_keep_their_order() {
    let mut list = vec![
        ProcessInfo { pid: 1, name: "a".into(), cpu: cpu(12.3401), mem: 0, status: "S".into() },
        ProcessInfo { pid: 2, name: "b".into(), cpu: cpu(12.3402), mem: 0, status: "S".into() },
    ];
    sort_processes(&mut list, SortKey::Cpu, true);
    assert_eq!(pids(&list), vec![2, 1]);
}

#[test]
fn a_highlight_past_isize_wraps_like_a_cast() {
    let mut app = App::new();
    app.refresh(readings(sample()));
    app.selected = Some(usize::MAX);
    handle_key(&mut app, KeyInput { code: KeyCode::Down, ctrl: false });
    assert_eq!(app.selected, Some(0));
    app.selected = Some(usize::MAX);
    handle_key(&mut app, KeyInput { code: KeyCode::PageDown, ctrl: false });
    assert_eq!(app.selected, Some(2));
}
