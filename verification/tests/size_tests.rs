use volt::app::human_bytes;

fn float_form(size: usize) -> String {
    if size < 1024 {
        format!("{} B", size)
    } else {
        format!("{:.1} KB", size as f64 / 1024.0)
    }
}

#[test]
fn human_bytes_small_counts_are_bytes() {
    assert_eq!(human_bytes(0), "0 B");
    assert_eq!(human_bytes(512), "512 B");
    assert_eq!(human_bytes(1023), "1023 B");
}

#[test]
fn human_bytes_kibibytes_have_one_decimal() {
    assert_eq!(human_bytes(1024), "1.0 KB");
    assert_eq!(human_bytes(1536), "1.5 KB");
    assert_eq!(human_bytes(2047), "2.0 KB");
    assert_eq!(human_bytes(10 * 1024 * 1024), "10240.0 KB");
}

#[test]
fn human_bytes_ties_go_to_even() {
    // 1280 / 1024 = 1.25 exactly
    assert_eq!(human_bytes(1280), "1.2 KB");
    // 1792 / 1024 = 1.75 exactly
    assert_eq!(human_bytes(1792), "1.8 KB");
}

#[test]
fn human_bytes_agrees_with_float_formatting() {
    for size in 0..70_000usize {
        assert_eq!(human_bytes(size), float_form(size));
    }
    let mut probes: Vec<usize> = Vec::new();
    for shift in 10..64u32 {
        let p = 1usize << shift;
        for d in [0usize, 1, 2, 3, 511, 512, 513, 1023, 1024, 1025, 2047, 2048, 4095] {
            probes.push(p.wrapping_add(d));
            probes.push(p.wrapping_sub(d));
            probes.push(p.wrapping_mul(3).wrapping_add(d));
        }
    }
    probes.push(usize::MAX);
    probes.push(usize::MAX - 1);
    probes.push((1usize << 53) + 1);
    probes.push((1usize << 54) + 2);
    probes.push((1usize << 54) + 6);
    let mut x: usize = 0x9E37_79B9_7F4A_7C15;
    for _ in 0..20_000 {
        x ^= x << 13;
        x ^= x >> 7;
        x ^= x << 17;
        probes.push(x);
        probes.push(x >> (x % 64));
    }
    for size in probes {
        assert_eq!(human_bytes(size), float_form(size), "size {}", size);
    }
}
