use minirt::decimal::{ASCII_ZERO, MAX_DIGITS};

fn digits(n: u32) -> Vec<u8> {
    let mut buf = [0u8; MAX_DIGITS];
    minirt::decimal::format(n, &mut buf).to_vec()
}

#[test]
fn zero_is_one_digit() {
    let mut buf = [0u8; 10];
    let out = minirt::decimal::format(0, &mut buf);
    assert_eq!(out, b"0");
    assert_eq!(out.len(), 1);
}

#[test]
fn three_hundred_and_five() {
    let mut buf = [0u8; 10];
    let out = minirt::decimal::format(305, &mut buf);
    assert_eq!(out, b"305");
    assert_eq!(out.len(), 3);
}

#[test]
fn single_digits() {
    for n in 0..10u32 {
        assert_eq!(digits(n), vec![ASCII_ZERO + n as u8]);
    }
}

#[test]
fn largest_value_fills_the_buffer() {
    let mut buf = [b'x'; 10];
    let out = minirt::decimal::format(u32::MAX, &mut buf);
    assert_eq!(out, b"4294967295");
    assert_eq!(out.len(), MAX_DIGITS);
    assert_eq!(&buf, b"4294967295");
}

#[test]
fn powers_of_ten_and_their_neighbours() {
    assert_eq!(digits(9), b"9");
    assert_eq!(digits(10), b"10");
    assert_eq!(digits(11), b"11");
    assert_eq!(digits(99), b"99");
    assert_eq!(digits(100), b"100");
    assert_eq!(digits(101), b"101");
    assert_eq!(digits(999), b"999");
    assert_eq!(digits(1000), b"1000");
    assert_eq!(digits(999_999_999), b"999999999");
    assert_eq!(digits(1_000_000_000), b"1000000000");
    assert_eq!(digits(1_000_000_001), b"1000000001");
}

#[test]
fn zeros_inside_and_at_the_end_are_kept() {
    assert_eq!(digits(1_020_304), b"1020304");
    assert_eq!(digits(4_000_000_000), b"4000000000");
    assert_eq!(digits(70), b"70");
}

#[test]
fn agrees_with_the_standard_formatter() {
    let mut samples: Vec<u32> = (0..=2500).collect();
    let mut n: u32 = 1;
    for _ in 0..200 {
        n = n.wrapping_mul(1_664_525).wrapping_add(1_013_904_223);
        samples.push(n);
    }
    samples.extend([u32::MAX, u32::MAX - 1, 1 << 31, (1 << 31) - 1]);
    for n in samples {
        assert_eq!(digits(n), n.to_string().into_bytes(), "formatting {}", n);
    }
}

#[test]
fn no_leading_zero() {
    for n in [1u32, 7, 10, 42, 100, 305, 1000, 65_535, 65_536, 1_000_000, u32::MAX] {
        assert_ne!(digits(n)[0], b'0');
    }
}

#[test]
fn every_byte_is_a_digit() {
    for n in [0u32, 5, 48, 57, 1234567890, 987_654_321, u32::MAX] {
        assert!(digits(n).iter().all(|b| b.is_ascii_digit()));
    }
}

#[test]
fn digits_read_back_as_the_number() {
    for n in [0u32, 1, 9, 10, 305, 99_999, 100_000, 2_147_483_648, u32::MAX] {
        let mut value: u64 = 0;
        for b in digits(n) {
            value = value * 10 + (b - b'0') as u64;
        }
        assert_eq!(value, n as u64);
    }
}

#[test]
fn length_is_the_digit_count() {
    let mut low: u64 = 1;
    for count in 1..=10usize {
        let high = low * 10;
        let first = low as u32;
        let last = if high > u32::MAX as u64 { u32::MAX } else { (high - 1) as u32 };
        assert_eq!(digits(first).len(), count);
        assert_eq!(digits(last).len(), count);
        low = high;
    }
    assert_eq!(digits(0).len(), 1);
}

#[test]
fn never_more_than_ten_bytes() {
    for n in [0u32, 1, 1_000_000_000, 3_999_999_999, u32::MAX] {
        let len = digits(n).len();
        assert!(1 <= len && len <= 10);
    }
}

#[test]
fn digits_stand_at_the_end_of_the_buffer() {
    let mut buf = [b'#'; 10];
    let len = minirt::decimal::format(305, &mut buf).len();
    assert_eq!(len, 3);
    assert_eq!(&buf, b"#######305");
}

#[test]
fn bytes_in_front_are_left_alone() {
    let mut buf = *b"abcdefghij";
    let out = minirt::decimal::format(0, &mut buf).to_vec();
    assert_eq!(out, b"0");
    assert_eq!(&buf, b"abcdefghi0");

    let mut buf = *b"abcdefghij";
    let out = minirt::decimal::format(65_536, &mut buf).to_vec();
    assert_eq!(out, b"65536");
    assert_eq!(&buf, b"abcde65536");
}

#[test]
fn a_buffer_can_be_used_again() {
    let mut buf = [0u8; 10];
    assert_eq!(minirt::decimal::format(4_294_967_295, &mut buf), b"4294967295");
    assert_eq!(minirt::decimal::format(12, &mut buf), b"12");
    assert_eq!(&buf, b"4294967212");
    assert_eq!(minirt::decimal::format(0, &mut buf), b"0");
}
