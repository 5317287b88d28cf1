use jbotci::units::{format_bytes, human_bytes};

fn human_bytes_by_float(bytes: u64) -> String {
    const UNITS: [&str; 5] = ["B", "KiB", "MiB", "GiB", "TiB"];
    let mut value = bytes as f64;
    let mut unit = 0usize;
    while value >= 1024.0 && unit + 1 < UNITS.len() {
        value /= 1024.0;
        unit += 1;
    }
    if unit == 0 {
        format!("{bytes} {}", UNITS[unit])
    } else {
        format!("{value:.1} {}", UNITS[unit])
    }
}

fn mib_by_float(bytes: u64) -> String {
    format!("{:.1} MiB", bytes as f64 / 1_048_576.0)
}

fn samples() -> Vec<u64> {
    let mut values = vec![
        0,
        1,
        1023,
        1024,
        1075,
        1126,
        1280,
        1331,
        1536,
        1792,
        10 * 1024 + 51,
        1_048_575,
        1_048_576,
        3 * 1_048_576 / 2,
        5 * 1_048_576 / 4,
        1 << 30,
        (1 << 40) - 1,
        1 << 40,
        (1u64 << 53) + 1,
        (1u64 << 53) + 3,
        u64::MAX,
        u64::MAX - 1024,
        (1u64 << 63) + (1u64 << 10),
    ];
    let mut x: u64 = 0x9e37_79b9_7f4a_7c15;
    for _ in 0..2000 {
        x ^= x << 13;
        x ^= x >> 7;
        x ^= x << 17;
        values.push(x >> (x % 60));
    }
    for k in 0..64 {
        values.push(1u64 << k);
        values.push((1u64 << k).wrapping_mul(5) / 4);
    }
    values
}

#[test]
fn human_bytes_matches_the_floating_point_rendering() {
    for bytes in samples() {
        assert_eq!(human_bytes(bytes), human_bytes_by_float(bytes), "bytes = {bytes}");
    }
}

#[test]
fn mib_matches_the_floating_point_rendering() {
    for bytes in samples() {
        assert_eq!(format_bytes(bytes), mib_by_float(bytes), "bytes = {bytes}");
    }
}

#[test]
fn human_bytes_examples() {
    assert_eq!(human_bytes(0), "0 B");
    assert_eq!(human_bytes(1023), "1023 B");
    assert_eq!(human_bytes(1024), "1.0 KiB");
    assert_eq!(human_bytes(1536), "1.5 KiB");
    assert_eq!(human_bytes(1_048_576), "1.0 MiB");
    assert_eq!(human_bytes(1 << 40), "1.0 TiB");
    assert_eq!(format_bytes(1_048_576), "1.0 MiB");
}
