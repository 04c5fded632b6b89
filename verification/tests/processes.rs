use web_top::metrics::ProcessInfo;
use web_top::procs::{gpu_active_count, sort_gpu_first, sort_procs, sorted_procs, SortKey};

fn proc_(pid: u32, cpu: f32, mem: u64, gpu: bool) -> ProcessInfo {
    ProcessInfo {
        pid,
        name: format!("p{}", pid),
        user: "u".to_string(),
        cpu_usage_bits: cpu.to_bits(),
        memory_bytes: mem,
        gpu_usage_bits: None,
        gpu_active: gpu,
    }
}

fn pids(v: &[ProcessInfo]) -> Vec<u32> {
    v.iter().map(|p| p.pid).collect()
}

#[test]
fn memory_order_is_descending_and_stable() {
    let mut v = vec![
        proc_(1, 0.0, 10, false),
        proc_(2, 0.0, 30, false),
        proc_(3, 0.0, 10, false),
        proc_(4, 0.0, 30, false),
        proc_(5, 0.0, 20, false),
    ];
    sort_procs(&mut v, SortKey::Memory);
    assert_eq!(pids(&v), vec![2, 4, 5, 1, 3]);
}

#[test]
fn cpu_order_is_descending_and_stable() {
    let mut v = vec![
        proc_(1, 1.5, 0, false),
        proc_(2, -0.0, 0, false),
        proc_(3, 99.0, 0, false),
        proc_(4, 0.0, 0, false),
        proc_(5, 1.5, 0, false),
        proc_(6, f32::INFINITY, 0, false),
        proc_(7, -3.0, 0, false),
    ];
    sort_procs(&mut v, SortKey::Cpu);
    assert_eq!(pids(&v), vec![6, 3, 1, 5, 2, 4, 7]);
}

#[test]
fn cpu_order_matches_std_stable_sort() {
    let values = [3.25f32, 0.0, 12.5, 3.25, 100.0, 0.5, 12.5, 7.0, 0.0, 64.0];
    let mut v: Vec<ProcessInfo> = values.iter().enumerate().map(|(i, c)| proc_(i as u32, *c, 0, false)).collect();
    let mut expected = v.clone();
    expected.sort_by(|a, b| {
        f32::from_bits(b.cpu_usage_bits)
            .partial_cmp(&f32::from_bits(a.cpu_usage_bits))
            .unwrap_or(std::cmp::Ordering::Equal)
    });
    sort_procs(&mut v, SortKey::Cpu);
    assert_eq!(pids(&v), pids(&expected));
}

#[test]
fn nan_cpu_keeps_every_process() {
    let mut v = vec![proc_(1, f32::NAN, 0, false), proc_(2, 5.0, 0, false), proc_(3, 1.0, 0, false)];
    sort_procs(&mut v, SortKey::Cpu);
    let mut got = pids(&v);
    got.sort();
    assert_eq!(got, vec![1, 2, 3]);
}

#[test]
fn gpu_first_groups_then_memory() {
    let mut v = vec![
        proc_(1, 0.0, 500, false),
        proc_(2, 0.0, 100, true),
        proc_(3, 0.0, 900, false),
        proc_(4, 0.0, 300, true),
        proc_(5, 0.0, 100, true),
    ];
    sort_gpu_first(&mut v);
    assert_eq!(pids(&v), vec![4, 2, 5, 3, 1]);
}

#[test]
fn table_rows_follow_the_table_order() {
    let v = vec![proc_(1, 2.0, 5, false), proc_(2, 1.0, 50, true), proc_(3, 3.0, 1, false)];
    assert_eq!(pids(&sorted_procs(v.clone(), SortKey::Cpu, false)), vec![3, 1, 2]);
    assert_eq!(pids(&sorted_procs(v.clone(), SortKey::Memory, false)), vec![2, 1, 3]);
    assert_eq!(pids(&sorted_procs(v.clone(), SortKey::Cpu, true)), vec![2, 1, 3]);
    assert_eq!(pids(&sorted_procs(Vec::new(), SortKey::Memory, true)), Vec::<u32>::new());
}

#[test]
fn sorting_twice_changes_nothing() {
    let v = vec![
        proc_(1, 0.0, 10, true),
        proc_(2, 0.0, 30, false),
        proc_(3, 0.0, 10, true),
        proc_(4, 0.0, 30, false),
    ];
    let once = sorted_procs(v, SortKey::Memory, true);
    let twice = sorted_procs(once.clone(), SortKey::Memory, true);
    assert_eq!(pids(&once), pids(&twice));
}

#[test]
fn counts_gpu_active_processes() {
    let v = vec![proc_(1, 0.0, 0, true), proc_(2, 0.0, 0, false), proc_(3, 0.0, 0, true)];
    assert_eq!(gpu_active_count(&v), 2);
    assert_eq!(gpu_active_count(&Vec::new()), 0);
}
