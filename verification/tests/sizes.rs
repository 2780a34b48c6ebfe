use fuse::layer::sizes::{double_value, format_large_size_text, format_size_text};
use fuse::layer::{LayerInfo, ValidationReport};

fn float_size_text(size: u64) -> String {
    let size = size as f64;
    if size < 1024.0 {
        format!("{} B", size)
    } else if size < 1024.0 * 1024.0 {
        format!("{:.2} KB", size / 1024.0)
    } else if size < 1024.0 * 1024.0 * 1024.0 {
        format!("{:.2} MB", size / (1024.0 * 1024.0))
    } else {
        format!("{:.2} GB", size / (1024.0 * 1024.0 * 1024.0))
    }
}

fn float_large_size_text(size: u64) -> String {
    let size = size as f64;
    if size < 1024.0 * 1024.0 * 1024.0 {
        format!("{:.2} MB", size / (1024.0 * 1024.0))
    } else {
        format!("{:.2} GB", size / (1024.0 * 1024.0 * 1024.0))
    }
}

fn samples() -> Vec<u64> {
    let mut v: Vec<u64> = vec![0, 1, 512, 1023, 1024, 1152, 1280, 1536, 1_024_000, 1_024_000_000, 4_000_000_000];
    for k in 0..64u32 {
        let p = 1u64 << k;
        v.extend([p, p.wrapping_sub(1), p.wrapping_add(1), p / 3, p.wrapping_mul(3) / 2]);
    }
    let mut x: u64 = 0x9E37_79B9_7F4A_7C15;
    for _ in 0..20000 {
        x ^= x << 13;
        x ^= x >> 7;
        x ^= x << 17;
        v.push(x >> (x % 64));
    }
    v.push(u64::MAX);
    v.push((1u64 << 53) + 1);
    v.push((1u64 << 53) + 3);
    v
}

#[test]
fn test_format_size() {
    let layer = LayerInfo {
        id: "test".to_string(),
        name: "test".to_string(),
        layer_type: "Linear".to_string(),
        size_bytes: 1_024_000_000,
        parameters: 1_000_000,
        input_shape: vec![1, 512],
        output_shape: vec![1, 512],
        activation: None,
        trainable: true,
        position: 0,
    };
    assert!(layer.format_size().contains("MB") || layer.format_size().contains("GB"));
    assert_eq!(layer.format_size(), "976.56 MB");
}

#[test]
fn size_texts_match_double_formatting() {
    for size in samples() {
        assert_eq!(format_size_text(size), float_size_text(size), "size {}", size);
        assert_eq!(format_large_size_text(size), float_large_size_text(size), "size {}", size);
    }
}

#[test]
fn double_values_match_conversion() {
    for size in samples() {
        assert_eq!(double_value(size), size as f64 as u128, "size {}", size);
    }
}

#[test]
fn size_text_units_and_ties() {
    assert_eq!(format_size_text(512), "512 B");
    assert_eq!(format_size_text(1024), "1.00 KB");
    assert_eq!(format_size_text(1152), "1.12 KB");
    assert_eq!(format_size_text(1 << 30), "1.00 GB");
    let report = ValidationReport {
        model_name: "m".to_string(),
        is_valid: true,
        issues: vec![],
        layer_count: 1,
        total_parameters: 1,
        total_size_bytes: 4_000_000_000,
        architecture_valid: true,
        tensor_shapes_valid: true,
        connections_valid: true,
    };
    assert_eq!(report.format_size(), "3.73 GB");
}
