use wasm_serve::pretty_size;

#[test]
fn zero_bytes_in_kilobytes() {
    assert_eq!(pretty_size(0), "0.00kb");
}

#[test]
fn one_and_a_half_kilobytes() {
    assert_eq!(pretty_size(1536), "1.50kb");
}

#[test]
fn exact_kilobyte() {
    assert_eq!(pretty_size(1024), "1.00kb");
}

#[test]
fn rounds_to_nearest_hundredth() {
    // 1000 / 1024 = 0.9765625
    assert_eq!(pretty_size(1000), "0.98kb");
    // 10 / 1024 = 0.009765625
    assert_eq!(pretty_size(10), "0.01kb");
}

#[test]
fn tie_rounds_to_even_hundredth() {
    // 128 / 1024 = 0.125 exactly
    assert_eq!(pretty_size(128), "0.12kb");
    // 384 / 1024 = 0.375 exactly
    assert_eq!(pretty_size(384), "0.38kb");
}

#[test]
fn last_kilobyte_count_before_megabytes() {
    assert_eq!(pretty_size(1024 * 1024 - 1), "1024.00kb");
    assert_eq!(pretty_size(1023 * 1024), "1023.00kb");
}

#[test]
fn switches_to_megabytes_at_1024_kilobytes() {
    assert_eq!(pretty_size(1024 * 1024), "1.00mb");
}

#[test]
fn several_megabytes() {
    assert_eq!(pretty_size(3 * 1024 * 1024), "3.00mb");
    assert_eq!(pretty_size(5 * 1024 * 1024 + 512 * 1024), "5.50mb");
    assert_eq!(pretty_size(1024 * 1024 * 1024), "1024.00mb");
}

#[test]
fn largest_byte_count() {
    // usize::MAX / 2^20 = 17592186044415.99999904...
    assert_eq!(pretty_size(usize::MAX), "17592186044416.00mb");
}

fn float_rendering(n: usize) -> String {
    let kb = n as f32 / 1024.0;
    if kb < 1024.0 {
        format!("{:.2}kb", kb)
    } else {
        format!("{:.2}mb", kb / 1024.0)
    }
}

#[test]
fn agrees_with_float_rendering_where_floats_are_exact() {
    let mut n: usize = 0;
    while n < (1 << 24) {
        assert_eq!(pretty_size(n), float_rendering(n), "at {}", n);
        n += 997;
    }
    for n in [128usize, 384, 640, 1048448, 1048576 + 5242, 1 << 23, (1 << 24) - 1] {
        assert_eq!(pretty_size(n), float_rendering(n), "at {}", n);
    }
}

#[test]
fn whole_kilobytes_and_megabytes() {
    for k in 0usize..1024 {
        assert_eq!(pretty_size(k * 1024), format!("{}.00kb", k));
    }
    for k in [1usize, 2, 7, 10, 99, 100, 1023, 1024, 4096, 123456] {
        assert_eq!(pretty_size(k * 1024 * 1024), format!("{}.00mb", k));
    }
}
