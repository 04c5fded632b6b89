use web_top::dashboard::{clamp_percent, usage_level, UsageLevel, EIGHTY_BITS, FIFTY_BITS, HUNDRED_BITS};
use web_top::dashboard::{memory_bars, Tab, TabView};
use web_top::metrics::{MemStats, MetricsSnapshot, ProcessInfo};
use web_top::procs::SortKey;
use web_top::table::{column_labels, handle_key, key_from_name, row_style, Key, KeyOutcome, RowStyle, TableAction};

fn row(pid: u32) -> ProcessInfo {
    ProcessInfo {
        pid,
        name: String::new(),
        user: String::new(),
        cpu_usage_bits: 0,
        memory_bytes: 0,
        gpu_usage_bits: None,
        gpu_active: false,
    }
}

fn select(pid: u32) -> KeyOutcome {
    KeyOutcome { prevent_default: true, action: TableAction::Select(pid) }
}

#[test]
fn key_names() {
    assert_eq!(key_from_name("ArrowDown"), Key::Down);
    assert_eq!(key_from_name("ArrowUp"), Key::Up);
    assert_eq!(key_from_name("k"), Key::Kill);
    assert_eq!(key_from_name("K"), Key::Kill);
    assert_eq!(key_from_name("Enter"), Key::Other);
    assert_eq!(key_from_name("arrowdown"), Key::Other);
}

#[test]
fn arrows_move_the_selection_within_the_table() {
    let rows = vec![row(10), row(20), row(30)];
    assert_eq!(handle_key(&rows, None, Key::Down), select(20));
    assert_eq!(handle_key(&rows, None, Key::Up), select(10));
    assert_eq!(handle_key(&rows, Some(20), Key::Down), select(30));
    assert_eq!(handle_key(&rows, Some(30), Key::Down), select(30));
    assert_eq!(handle_key(&rows, Some(20), Key::Up), select(10));
    assert_eq!(handle_key(&rows, Some(10), Key::Up), select(10));
    assert_eq!(handle_key(&rows, Some(99), Key::Down), select(20));
    assert_eq!(handle_key(&Vec::new(), Some(1), Key::Down), KeyOutcome { prevent_default: true, action: TableAction::Nothing });
    assert_eq!(handle_key(&vec![row(5)], Some(5), Key::Down), select(5));
}

#[test]
fn down_then_up_returns() {
    let rows = vec![row(1), row(2), row(3), row(4)];
    for i in 0..3 {
        let down = handle_key(&rows, Some(rows[i].pid), Key::Down);
        assert_eq!(down, select(rows[i + 1].pid));
        assert_eq!(handle_key(&rows, Some(rows[i + 1].pid), Key::Up), select(rows[i].pid));
    }
}

#[test]
fn kill_key_names_the_selection() {
    let rows = vec![row(10)];
    assert_eq!(handle_key(&rows, Some(10), Key::Kill), KeyOutcome { prevent_default: false, action: TableAction::Kill(10) });
    assert_eq!(handle_key(&rows, None, Key::Kill), KeyOutcome { prevent_default: false, action: TableAction::Nothing });
    assert_eq!(handle_key(&rows, Some(10), Key::Other), KeyOutcome { prevent_default: false, action: TableAction::Nothing });
}

#[test]
fn columns_and_rows() {
    assert_eq!(column_labels(SortKey::Cpu), ("CPU%", "Mem"));
    assert_eq!(column_labels(SortKey::Memory), ("Mem", "CPU%"));
    assert_eq!(row_style(true, true, true), RowStyle::Selected);
    assert_eq!(row_style(true, false, true), RowStyle::GpuActive);
    assert_eq!(row_style(false, false, true), RowStyle::Plain);
    assert_eq!(row_style(true, false, false), RowStyle::Plain);
}

#[test]
fn tabs() {
    let names: Vec<&str> = Tab::all().into_iter().map(|t| t.name()).collect();
    assert_eq!(names, vec!["overview", "cpu", "gpu", "memory"]);
    let labels: Vec<&str> = Tab::all().into_iter().map(|t| t.label()).collect();
    assert_eq!(labels, vec!["OVERVIEW", "CPU", "GPU", "MEMORY"]);
    assert_eq!(Tab::initial(), Tab::Overview);
    assert_eq!(Tab::from_name("gpu"), Some(Tab::Gpu));
    assert_eq!(Tab::from_name("disk"), None);
    assert_eq!(Tab::Cpu.view(), TabView::Processes(SortKey::Cpu));
    assert_eq!(Tab::Memory.view(), TabView::Processes(SortKey::Memory));
    assert_eq!(Tab::Gpu.view(), TabView::Gpu);
    assert_eq!(Tab::Overview.view(), TabView::Overview);
}

#[test]
fn memory_section() {
    let m = MemStats { total: 100, used: 60, available: 40, swap_total: 0, swap_used: 0, wired: 10, cached: 20 };
    let bars = memory_bars(&m);
    let got: Vec<(&str, u64, u64)> = bars.iter().map(|b| (b.label, b.bytes, b.total)).collect();
    assert_eq!(
        got,
        vec![("Used", 60, 100), ("Wired", 10, 100), ("Cached", 20, 100), ("Available", 40, 100), ("Swap used", 0, 1)]
    );
    let m2 = MemStats { swap_total: 8, swap_used: 3, ..m };
    assert_eq!(memory_bars(&m2)[4].total, 8);
}

#[test]
fn empty_snapshot() {
    let s = MetricsSnapshot::default();
    assert_eq!(s.timestamp, 0);
    assert!(s.cpu_cores.is_empty() && s.gpu_cores.is_empty() && s.processes.is_empty());
    assert_eq!(s.memory, MemStats::default());
    assert_eq!(s.memory.total, 0);
}

#[test]
fn usage_levels_and_clamping() {
    assert_eq!(EIGHTY_BITS, 80.0f32.to_bits());
    assert_eq!(FIFTY_BITS, 50.0f32.to_bits());
    assert_eq!(HUNDRED_BITS, 100.0f32.to_bits());
    assert_eq!(usage_level(80.0f32.to_bits()), UsageLevel::High);
    assert_eq!(usage_level(79.9f32.to_bits()), UsageLevel::Medium);
    assert_eq!(usage_level(50.0f32.to_bits()), UsageLevel::Medium);
    assert_eq!(usage_level(49.99f32.to_bits()), UsageLevel::Low);
    assert_eq!(usage_level(f32::NAN.to_bits()), UsageLevel::Low);
    assert_eq!(usage_level(f32::INFINITY.to_bits()), UsageLevel::High);
    for x in [-5.0f32, -0.0, 0.0, 12.5, 100.0, 100.5, f32::INFINITY, f32::NEG_INFINITY, 1e-30] {
        assert_eq!(clamp_percent(x.to_bits()), x.clamp(0.0, 100.0).to_bits(), "{}", x);
    }
    assert!(f32::from_bits(clamp_percent(f32::NAN.to_bits())).is_nan());
}
