use cosmic_cults::float_bits::{f32_ge, f32_gt, f32_le, f32_lt};
use cosmic_cults::float_convert::{f32_to_usize, u32_to_f32_bits};

#[test]
fn u32_to_f32_matches_the_cast() {
    let samples: Vec<u32> = vec![
        0,
        1,
        2,
        3,
        4,
        10,
        255,
        1000,
        8_388_607,
        8_388_608,
        16_777_215,
        16_777_216,
        16_777_217,
        16_777_218,
        16_777_219,
        33_554_433,
        33_554_435,
        123_456_789,
        2_147_483_647,
        2_147_483_648,
        4_294_967_167,
        4_294_967_168,
        4_294_967_295,
    ];
    for n in samples {
        assert_eq!(u32_to_f32_bits(n), (n as f32).to_bits(), "n = {}", n);
    }
}

#[test]
fn u32_to_f32_matches_the_cast_on_a_sweep() {
    let mut n: u32 = 1;
    while n < 4_000_000_000 {
        assert_eq!(u32_to_f32_bits(n), (n as f32).to_bits(), "n = {}", n);
        assert_eq!(u32_to_f32_bits(n + 1), ((n + 1) as f32).to_bits(), "n = {}", n + 1);
        n = n / 7 * 9 + 13;
    }
}

#[test]
fn u32_to_f32_rounds_ties_to_even() {
    // 2^24 + 1 lies halfway between 2^24 and 2^24 + 2; the even significand wins.
    assert_eq!(f32::from_bits(u32_to_f32_bits(16_777_217)), 16_777_216.0);
    // 2^24 + 3 lies halfway between 2^24 + 2 and 2^24 + 4; 2^24 + 4 is even.
    assert_eq!(f32::from_bits(u32_to_f32_bits(16_777_219)), 16_777_220.0);
    // The largest u32 rounds up to 2^32.
    assert_eq!(f32::from_bits(u32_to_f32_bits(u32::MAX)), 4_294_967_296.0);
}

#[test]
fn f32_to_usize_matches_the_cast() {
    let samples: Vec<f32> = vec![
        0.0,
        -0.0,
        0.3,
        0.99,
        1.0,
        1.5,
        2.0,
        2.999,
        3.0,
        7.25,
        100.0,
        8_388_607.5,
        16_777_216.0,
        1.0e10,
        4_294_967_296.0,
        1.8e19,
        1.0e20,
        3.4e38,
        -0.5,
        -1.0,
        -1.0e20,
        f32::MIN_POSITIVE,
        1.0e-40,
        f32::INFINITY,
        f32::NEG_INFINITY,
        f32::NAN,
        -f32::NAN,
    ];
    for x in samples {
        assert_eq!(f32_to_usize(x.to_bits()), x as usize, "x = {}", x);
    }
}

#[test]
fn f32_to_usize_matches_the_cast_on_a_sweep() {
    let mut bits: u32 = 0;
    loop {
        let x = f32::from_bits(bits);
        assert_eq!(f32_to_usize(bits), x as usize, "bits = {:#x}", bits);
        match bits.checked_add(65_521) {
            Some(b) => bits = b,
            None => break,
        }
    }
}

#[test]
fn comparisons_on_bits_match_f32_comparisons() {
    let values: Vec<f32> =
        vec![0.0, -0.0, 1.0, -1.0, 0.5, 100.0, -100.0, f32::INFINITY, f32::NEG_INFINITY, f32::NAN, 1.0e-40];
    for a in values.iter() {
        for b in values.iter() {
            assert_eq!(f32_lt(a.to_bits(), b.to_bits()), a < b, "{} < {}", a, b);
            assert_eq!(f32_le(a.to_bits(), b.to_bits()), a <= b, "{} <= {}", a, b);
            assert_eq!(f32_gt(a.to_bits(), b.to_bits()), a > b, "{} > {}", a, b);
            assert_eq!(f32_ge(a.to_bits(), b.to_bits()), a >= b, "{} >= {}", a, b);
        }
    }
}

#[test]
fn halving_matches_multiplication_by_one_half() {
    let mut bits: u32 = 0;
    loop {
        let x = f32::from_bits(bits);
        let h = cosmic_cults::float_convert::f32_half(bits);
        if x.is_nan() {
            assert!(f32::from_bits(h).is_nan());
        } else {
            assert_eq!(h, (x * 0.5).to_bits(), "bits = {:#x}", bits);
        }
        match bits.checked_add(4_099) {
            Some(b) => bits = b,
            None => break,
        }
    }
    // The subnormals and the smallest exponents, where halving rounds.
    let small = (0u32..0x0101_0000).step_by(7).chain(0x007F_F000u32..0x0080_1000).chain(0x00FF_F000u32..0x0100_1000);
    for bits in small {
        let x = f32::from_bits(bits);
        assert_eq!(cosmic_cults::float_convert::f32_half(bits), (x * 0.5).to_bits(), "bits = {:#x}", bits);
        let neg = bits | 0x8000_0000;
        assert_eq!(cosmic_cults::float_convert::f32_half(neg), (f32::from_bits(neg) * 0.5).to_bits());
    }
}

#[test]
fn small_integers_round_trip_through_f32() {
    for n in (0u32..0x0100_0000).step_by(997).chain([0, 1, 2, 3, 0x00FF_FFFF]) {
        assert_eq!(f32_to_usize(u32_to_f32_bits(n)), n as usize, "n = {}", n);
    }
}
