use droptail::domain::content::SendMethod;
use droptail::domain::device::Connection;
use droptail::presentation::{connection_label, format_rate, format_size, send_method_label};

fn float_size(bytes: u64) -> String {
    let kib = 1024.0_f64;
    let mib = 1024.0 * kib;
    let gib = 1024.0 * mib;
    let bytes = bytes as f64;
    if bytes >= gib {
        format!("{:.2} GiB", bytes / gib)
    } else if bytes >= mib {
        let m = bytes / mib;
        if m >= 100.0 {
            format!("{m:.0} MiB")
        } else {
            format!("{m:.1} MiB")
        }
    } else {
        format!("{:.1} KiB", bytes / kib)
    }
}

fn float_rate(bytes_per_second: u64) -> String {
    format!("{:.1} MiB/s", bytes_per_second as f64 / (1024.0 * 1024.0))
}

fn samples() -> Vec<u64> {
    let mut values = vec![
        0,
        1,
        51,
        52,
        512,
        1023,
        1024,
        1075,
        1076,
        1_048_575,
        1_048_576,
        104_857_599,
        104_857_600,
        1_073_741_823,
        1_073_741_824,
        1_964_947_538,
        (1 << 53) - 1,
        1 << 53,
        (1 << 53) + 1,
        (1 << 60) + 12345,
        u64::MAX - 1,
        u64::MAX,
    ];
    // Values at and around the ties of each rounding step.
    for unit in [1024_u64, 1 << 20, 1 << 30] {
        for step in [unit / 20, unit / 10, unit / 200, unit / 2, unit] {
            for k in 1..40_u64 {
                let v = k.wrapping_mul(step);
                values.extend([v.saturating_sub(1), v, v.saturating_add(1)]);
            }
        }
    }
    let mut x: u64 = 0x9e37_79b9_7f4a_7c15;
    for _ in 0..20_000 {
        x ^= x << 13;
        x ^= x >> 7;
        x ^= x << 17;
        values.push(x >> (x % 64));
    }
    values
}

#[test]
fn sizes_read_as_the_float_formatting_gives_them() {
    for v in samples() {
        assert_eq!(format_size(v), float_size(v), "size of {v}");
    }
}

#[test]
fn rates_read_as_the_float_formatting_gives_them() {
    for v in samples() {
        assert_eq!(format_rate(v), float_rate(v), "rate of {v}");
    }
}

#[test]
fn sizes_have_exact_texts() {
    assert_eq!(format_size(0), "0.0 KiB");
    assert_eq!(format_size(1536), "1.5 KiB");
    assert_eq!(format_size(1_048_576), "1.0 MiB");
    assert_eq!(format_size(150 * 1_048_576), "150 MiB");
    assert_eq!(format_size(1_964_947_538), "1.83 GiB");
    assert_eq!(format_rate(40_055_603), "38.2 MiB/s");
    assert_eq!(format_rate(0), "0.0 MiB/s");
}

#[test]
fn labels_name_methods_and_connections() {
    assert_eq!(send_method_label(SendMethod::Separate), "分别发送");
    assert_eq!(send_method_label(SendMethod::Archive), "打包后发送");
    assert_eq!(connection_label(&Connection::Offline), "离线");
    assert_eq!(connection_label(&Connection::Direct), "直连");
    assert_eq!(connection_label(&Connection::Derp("fra".to_owned())), "DERP · fra");
    assert_eq!(connection_label(&Connection::PeerRelay("x".to_owned())), "Peer Relay");
}
