use web_top::creator::{client_pid, client_pids, pid_from_creator};
use web_top::gpu::{gpu_cores_from_stats, EngineReadings};
use web_top::ieee::{bits_is_negative, bits_lt, i32_to_f32_bits, MINUS_ONE_BITS};

fn reference_pid(buf: &[u8]) -> Option<u32> {
    let s = std::str::from_utf8(buf).ok().and_then(|s| s.split('\0').next()).unwrap_or("");
    s.strip_prefix("pid ").and_then(|s| s.split(',').next()).and_then(|s| s.trim().parse().ok())
}

fn padded(text: &str) -> Vec<u8> {
    let mut buf = [0u8; 256];
    buf[..text.len()].copy_from_slice(text.as_bytes());
    buf.to_vec()
}

#[test]
fn reads_pid_of_creator_record() {
    assert_eq!(pid_from_creator("pid 123, WindowServer"), Some(123));
    assert_eq!(client_pid(&padded("pid 123, WindowServer")), Some(123));
    assert_eq!(client_pid(&padded("pid 0, kernel_task")), Some(0));
    assert_eq!(client_pid(&padded("pid 4294967295, x")), Some(4294967295));
    assert_eq!(client_pid(&padded("pid 4294967296, x")), None);
    assert_eq!(client_pid(&padded("pid +7, x")), Some(7));
    assert_eq!(client_pid(&padded("pid   42  , x")), Some(42));
    assert_eq!(client_pid(&padded("pid 42")), Some(42));
    assert_eq!(client_pid(&padded("pid \u{a0}42\u{3000}, x")), Some(42));
    assert_eq!(client_pid(&padded("pid , x")), None);
    assert_eq!(client_pid(&padded("pid -1, x")), None);
    assert_eq!(client_pid(&padded("pid 1 2, x")), None);
    assert_eq!(client_pid(&padded("PID 12, x")), None);
    assert_eq!(client_pid(&padded("pid12, x")), None);
    assert_eq!(client_pid(&[]), None);
}

#[test]
fn text_after_nul_is_ignored() {
    let mut buf = padded("pid 5");
    buf[10] = b'9';
    assert_eq!(client_pid(&buf), Some(5));
    assert_eq!(client_pid(b"\0pid 5, x"), None);
}

#[test]
fn bytes_that_are_not_utf8_give_no_pid() {
    let mut buf = padded("pid 9, x");
    buf[200] = 0xff;
    assert_eq!(client_pid(&buf), None);
}

#[test]
fn pid_reading_matches_std_string_handling() {
    let cases = [
        "pid 1, a", "pid 10,b", "pid 99999999999, c", "pid \t12\n, d", "pid 1\u{2028}, e", "pid 00012, f",
        "pid ++1, g", "pid +, h", "pid 3,4", "pid", "pid ", "", "x pid 3", "pid 7\u{85}", "pid \u{200b}7, i",
        "pid 1\u{0}2, j", "pid ١٢, k",
    ];
    for c in cases {
        assert_eq!(client_pid(&padded(c)), reference_pid(&padded(c)), "case {:?}", c);
        assert_eq!(pid_from_creator(c), reference_pid(c.as_bytes()), "case {:?}", c);
    }
}

#[test]
fn collects_distinct_pids() {
    let records = vec![padded("pid 5, a"), padded("junk"), padded("pid 7, b"), padded("pid 5, c")];
    let set = client_pids(&records);
    assert_eq!(set.len(), 2);
    assert!(set.contains(&5));
    assert!(set.contains(&7));
    assert!(client_pids(&Vec::new()).is_empty());
}

#[test]
fn engine_list_from_statistics() {
    assert!(gpu_cores_from_stats(None).is_empty());
    let cores = gpu_cores_from_stats(Some(EngineReadings { device: Some(37), renderer: None, tiler: Some(-2) }));
    let names: Vec<&str> = cores.iter().map(|c| c.name.as_str()).collect();
    assert_eq!(names, vec!["Device", "Renderer", "Tiler", "ANE"]);
    assert_eq!(f32::from_bits(cores[0].usage_bits), 37.0);
    assert_eq!(cores[1].usage_bits, 0);
    assert_eq!(f32::from_bits(cores[2].usage_bits), -2.0);
    assert_eq!(f32::from_bits(cores[3].usage_bits), -1.0);
    assert_eq!(MINUS_ONE_BITS, (-1.0f32).to_bits());
    assert!(cores[0].is_available());
    assert!(cores[1].is_available());
    assert!(!cores[2].is_available());
    assert!(!cores[3].is_available());
}

#[test]
fn integer_to_single_precision_matches_cast() {
    let mut samples: Vec<i32> = vec![0, 1, -1, 2, 100, -100, i32::MAX, i32::MIN, i32::MAX - 1, 16_777_215, 16_777_216,
        16_777_217, 16_777_218, 16_777_219, 33_554_435, -16_777_217, 1 << 30, (1 << 30) + 64, (1 << 30) + 65];
    let mut x: u32 = 12345;
    for _ in 0..5000 {
        x ^= x << 13;
        x ^= x >> 17;
        x ^= x << 5;
        samples.push(x as i32);
        samples.push((x >> 7) as i32);
    }
    for v in samples {
        assert_eq!(i32_to_f32_bits(v), (v as f32).to_bits(), "value {}", v);
    }
}

#[test]
fn single_precision_comparisons_match_hardware() {
    let values = [0.0f32, -0.0, 1.0, -1.0, 0.5, 1e-40, -1e-40, f32::MAX, f32::MIN, f32::INFINITY, f32::NEG_INFINITY, f32::NAN, 3.5, -3.5];
    for a in values {
        for b in values {
            assert_eq!(bits_lt(a.to_bits(), b.to_bits()), a < b, "{} < {}", a, b);
        }
        assert_eq!(bits_is_negative(a.to_bits()), a < 0.0, "{} < 0", a);
    }
}
