use web_top::figures::fmt_one_decimal;
use web_top::size::fmt_bytes;
use web_top::text::decimal_string;
use web_top::web::{kill_alert, kill_question, kill_url, ws_url, KillReply};

fn float_rendering(b: u64) -> String {
    const GB: f64 = 1_073_741_824.0;
    const MB: f64 = 1_048_576.0;
    let f = b as f64;
    if f >= GB {
        format!("{:.1} GB", f / GB)
    } else {
        format!("{:.0} MB", f / MB)
    }
}

#[test]
fn fmt_bytes_exact_values() {
    assert_eq!(fmt_bytes(0), "0 MB");
    assert_eq!(fmt_bytes(1_048_576), "1 MB");
    assert_eq!(fmt_bytes(1_073_741_824), "1.0 GB");
    assert_eq!(fmt_bytes(17_179_869_184), "16.0 GB");
    assert_eq!(fmt_bytes(1_610_612_736), "1.5 GB");
    assert_eq!(fmt_bytes(536_870_912), "512 MB");
    assert_eq!(fmt_bytes(1_073_741_823), "1024 MB");
}

#[test]
fn fmt_bytes_ties_round_to_even() {
    // half a mebibyte and one and a half mebibytes
    assert_eq!(fmt_bytes(524_288), "0 MB");
    assert_eq!(fmt_bytes(1_572_864), "2 MB");
    assert_eq!(fmt_bytes(2_621_440), "2 MB");
    // 1.25 GiB and 1.35 GiB are not ties in binary; 1.25 is
    assert_eq!(fmt_bytes(5 * 268_435_456), "1.2 GB");
    assert_eq!(fmt_bytes(7 * 268_435_456), "1.8 GB");
}

#[test]
fn fmt_bytes_matches_double_precision_rendering() {
    let mut samples: Vec<u64> = vec![
        0,
        1,
        524_287,
        524_288,
        524_289,
        1_073_741_823,
        1_073_741_824,
        1_073_741_825,
        (1u64 << 53) - 1,
        1u64 << 53,
        (1u64 << 53) + 1,
        (1u64 << 53) + 3,
        u64::MAX,
        u64::MAX - 1024,
        u64::MAX - 2048,
        u64::MAX / 10,
    ];
    for k in 0..200u64 {
        samples.push(k * 268_435_456);
        samples.push(k * 107_374_182);
        samples.push(k * 524_288);
        samples.push(k * 1_048_576 + 524_288);
        samples.push((k + 1) * 53_687_091 * 20);
    }
    let mut x: u64 = 0x9e37_79b9_7f4a_7c15;
    for _ in 0..2000 {
        x ^= x << 13;
        x ^= x >> 7;
        x ^= x << 17;
        samples.push(x);
        samples.push(x >> 20);
        samples.push(x >> 33);
    }
    for b in samples {
        assert_eq!(fmt_bytes(b), float_rendering(b), "bytes {}", b);
    }
}

#[test]
fn decimal_strings() {
    assert_eq!(decimal_string(0), "0");
    assert_eq!(decimal_string(7), "7");
    assert_eq!(decimal_string(10), "10");
    assert_eq!(decimal_string(u64::MAX), u64::MAX.to_string());
}

#[test]
fn websocket_address_follows_page_scheme() {
    assert_eq!(ws_url("https:", "example.org:8080"), "wss://example.org:8080/ws");
    assert_eq!(ws_url("http:", "192.168.1.5:8080"), "ws://192.168.1.5:8080/ws");
    assert_eq!(ws_url("", "h"), "ws://h/ws");
    assert_eq!(ws_url("https", "h"), "ws://h/ws");
}

#[test]
fn kill_request_texts() {
    assert_eq!(kill_question(4321), "Kill process 4321?");
    assert_eq!(kill_url("http://mac:8080", 77), "http://mac:8080/api/process/77");
    assert_eq!(
        kill_alert(12, KillReply::Status(403)),
        Some("Cannot kill 12: permission denied".to_string())
    );
    assert_eq!(kill_alert(12, KillReply::Status(200)), None);
    assert_eq!(kill_alert(12, KillReply::Status(404)), None);
    assert_eq!(
        kill_alert(12, KillReply::NetworkError),
        Some("Network error \u{2014} kill request failed".to_string())
    );
}

#[test]
fn one_decimal_matches_std_formatting() {
    let mut values: Vec<f32> = vec![
        0.0, -0.0, 0.05, 0.25, 0.35, 0.75, 1.25, -0.04, -0.05, -0.25, 12.34, 99.95, 100.0, 37.0,
        f32::MAX, f32::MIN, f32::MIN_POSITIVE, 1e-45, -1e-45, 16_777_216.0, 3.4e38, 1e20, 123456.78,
        f32::INFINITY, f32::NEG_INFINITY, f32::NAN, -f32::NAN, 0.95, 2.5, 0.45,
    ];
    let mut x: u32 = 0x1234_5678;
    for _ in 0..20000 {
        x ^= x << 13;
        x ^= x >> 17;
        x ^= x << 5;
        values.push(f32::from_bits(x));
        values.push((x % 10_000) as f32 / 64.0);
    }
    for v in values {
        assert_eq!(fmt_one_decimal(v.to_bits()), format!("{:.1}", v), "bits {:#x}", v.to_bits());
    }
}

#[test]
fn one_decimal_exact_values() {
    assert_eq!(fmt_one_decimal(12.5f32.to_bits()), "12.5");
    assert_eq!(fmt_one_decimal(0.25f32.to_bits()), "0.2");
    assert_eq!(fmt_one_decimal(0.75f32.to_bits()), "0.8");
    assert_eq!(fmt_one_decimal((-0.0f32).to_bits()), "-0.0");
    assert_eq!(fmt_one_decimal(f32::NAN.to_bits()), "NaN");
    assert_eq!(fmt_one_decimal(f32::NEG_INFINITY.to_bits()), "-inf");
}
