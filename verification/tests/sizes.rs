use omnidrive::size::{format_size, push_two_decimals};

fn by_floats(bytes: u64) -> String {
    if bytes < 1024 {
        format!("{} B", bytes)
    } else if bytes < 1024 * 1024 {
        format!("{:.1} KB", bytes as f64 / 1024.0)
    } else if bytes < 1024 * 1024 * 1024 {
        format!("{:.1} MB", bytes as f64 / (1024.0 * 1024.0))
    } else {
        format!("{:.1} GB", bytes as f64 / (1024.0 * 1024.0 * 1024.0))
    }
}

fn two_places(bytes: u64) -> String {
    let mut v: Vec<char> = Vec::new();
    push_two_decimals(&mut v, bytes, 1024 * 1024);
    v.into_iter().collect()
}

#[test]
fn sizes_in_each_unit() {
    assert_eq!(format_size(0), "0 B");
    assert_eq!(format_size(1023), "1023 B");
    assert_eq!(format_size(1024), "1.0 KB");
    assert_eq!(format_size(1536), "1.5 KB");
    assert_eq!(format_size(1048575), "1024.0 KB");
    assert_eq!(format_size(1048576), "1.0 MB");
    assert_eq!(format_size(5 * 1024 * 1024 + 300 * 1024), "5.3 MB");
    assert_eq!(format_size(1073741824), "1.0 GB");
    assert_eq!(format_size(u64::MAX), "17179869184.0 GB");
}

#[test]
fn ties_go_to_the_even_digit() {
    // 1280 / 1024 is 1.25 and 1792 / 1024 is 1.75, both exactly.
    assert_eq!(format_size(1280), "1.2 KB");
    assert_eq!(format_size(1792), "1.8 KB");
    assert_eq!(format_size(1280), by_floats(1280));
    assert_eq!(format_size(1792), by_floats(1792));
}

#[test]
fn sizes_agree_with_floating_point_formatting() {
    let mut x: u64 = 1;
    let mut n: u64 = 0;
    while n < 200_000 {
        // A multiplicative walk with a changing low part.
        x = x.wrapping_mul(6364136223846793005).wrapping_add(1442695040888963407);
        let shift = (x >> 58) as u32;
        let bytes = x >> shift;
        assert_eq!(format_size(bytes), by_floats(bytes), "at {}", bytes);
        n += 1;
    }
    for bytes in 0..70_000u64 {
        assert_eq!(format_size(bytes), by_floats(bytes), "at {}", bytes);
    }
}

#[test]
fn sizes_above_the_reach_of_a_mantissa() {
    let base: u64 = 1 << 53;
    for k in 0..4096u64 {
        for bytes in [base + k, (base << 3) + k * 7, u64::MAX - k, (1u64 << 63) + k * 1025] {
            assert_eq!(format_size(bytes), by_floats(bytes), "at {}", bytes);
        }
    }
}

#[test]
fn two_decimals_agree_with_floating_point_formatting() {
    assert_eq!(two_places(0), "0.00");
    assert_eq!(two_places(52428800), "50.00");
    assert_eq!(two_places(52428801), "50.00");
    let mut x: u64 = 7;
    let mut n: u64 = 0;
    while n < 100_000 {
        x = x.wrapping_mul(6364136223846793005).wrapping_add(1442695040888963407);
        let bytes = x >> ((x >> 58) as u32);
        let expected = format!("{:.2}", bytes as f64 / (1024.0 * 1024.0));
        assert_eq!(two_places(bytes), expected, "at {}", bytes);
        n += 1;
    }
    // Exact ties at the second digit: multiples of 1/8 MiB.
    for k in 0..4000u64 {
        let bytes = k * 131072 / 1;
        let expected = format!("{:.2}", bytes as f64 / (1024.0 * 1024.0));
        assert_eq!(two_places(bytes), expected, "at {}", bytes);
        let bytes = k * 5243;
        let expected = format!("{:.2}", bytes as f64 / (1024.0 * 1024.0));
        assert_eq!(two_places(bytes), expected, "at {}", bytes);
    }
}
