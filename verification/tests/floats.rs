use freewheeling::core_persistence::quantise_sample;
use freewheeling::datatypes::{f32_bits_as_int, i64_to_f32_bits, CoreDataType, UserVariable};

fn check(x: f32) {
    let b = x.to_bits();
    assert_eq!(f32_bits_as_int(b, i64::MIN, i64::MAX), x as i64, "{x} as i64");
    assert_eq!(f32_bits_as_int(b, i32::MIN as i64, i32::MAX as i64), (x as i32) as i64, "{x} as i32");
    assert_eq!(f32_bits_as_int(b, i8::MIN as i64, i8::MAX as i64), (x as i8) as i64, "{x} as i8");
}

#[test]
fn float_bits_convert_like_as_casts() {
    let samples = [
        0.0f32, -0.0, 0.5, -0.5, 1.0, -1.0, 1.999, -1.999, 127.9, 128.0, -128.0, -128.9, -129.5, 255.0,
        1e9, -1e9, 2147483520.0, 2147483648.0, -2147483648.0, -2147483904.0, -3e9, 9.2e18, 9.3e18,
        -9.2e18, -9.3e18, f32::MAX, f32::MIN, f32::INFINITY, f32::NEG_INFINITY, f32::NAN,
        f32::MIN_POSITIVE, 1e-40, 12345.678, 8388608.5, 16777217.0,
    ];
    for x in samples {
        check(x);
    }
    let mut bits: u32 = 0;
    loop {
        check(f32::from_bits(bits));
        match bits.checked_add(9_973) {
            Some(next) => bits = next,
            None => break,
        }
    }
}

#[test]
fn float_variables_read_as_integers() {
    let mut v = UserVariable::new();
    v.set_float_bits((-3.75f32).to_bits());
    assert_eq!(v.get_type(), CoreDataType::Float);
    assert_eq!(v.as_i32(), -3);
    assert_eq!(v.as_i64(), -3);
    assert_eq!(v.as_char(), -3);
    let r = v.as_range();
    assert_eq!((r.lo, r.hi), (-3, -3));
    v.set_float_bits(300.5f32.to_bits());
    assert_eq!(v.as_char(), 127);
    assert_eq!(v.as_i32(), 300);
    v.set_float_bits(f32::NAN.to_bits());
    assert_eq!(v.as_i64(), 0);
}

fn printed(x: f32) -> String {
    let mut v = UserVariable::new();
    v.set_float_bits(x.to_bits());
    v.print()
}

#[test]
fn print_uses_cpp_float_and_range_syntax() {
    let mut value = UserVariable::new();
    value.set_float_bits(1.239f32.to_bits());
    assert_eq!(value.print(), "1.24");
    value.set_range(-2, 9);
    assert_eq!(value.print(), "-2>9");
}

#[test]
fn floats_print_like_two_decimal_formatting() {
    let samples = [
        0.0f32, -0.0, 0.125, 0.375, 0.005, 0.015, 1.005, 2.675, -1.239, 1e-40, -1e-40, 123456.78,
        16777216.0, 3.4e38, f32::MAX, f32::MIN, f32::INFINITY, f32::NEG_INFINITY, f32::NAN, 0.5, 1.5,
        2.5, 0.045, 99.995,
    ];
    for x in samples {
        assert_eq!(printed(x), format!("{:.2}", x), "{x:e}");
    }
    let mut bits: u32 = 7;
    loop {
        let x = f32::from_bits(bits);
        assert_eq!(printed(x), format!("{:.2}", x), "{bits:#x}");
        match bits.checked_add(65_537) {
            Some(next) => bits = next,
            None => break,
        }
    }
}

#[test]
fn integers_round_to_the_nearest_float() {
    let samples = [
        0i64, 1, -1, 7, 16777215, 16777216, 16777217, 16777218, 16777219, -16777217, 33554433,
        33554435, i64::MAX, i64::MIN, i64::MIN + 1, 1 << 40, (1 << 40) + (1 << 16), 123456789,
        -987654321, i32::MAX as i64, i32::MIN as i64,
    ];
    for v in samples {
        assert_eq!(i64_to_f32_bits(v), (v as f32).to_bits(), "{v}");
    }
    let mut v: i64 = i64::MIN;
    loop {
        assert_eq!(i64_to_f32_bits(v), (v as f32).to_bits(), "{v}");
        match v.checked_add(9_007_199_254_741) {
            Some(next) => v = next,
            None => break,
        }
    }
    for v in -100_000i64..100_000 {
        assert_eq!(i64_to_f32_bits(v * 1_003), ((v * 1_003) as f32).to_bits());
    }
}

#[test]
fn raising_to_float_rounds_the_value() {
    let mut own = UserVariable::new();
    own.set_int(16777217);
    let mut f = UserVariable::new();
    f.set_float_bits(0.5f32.to_bits());
    own.raise_precision(&f);
    assert_eq!(own.get_type(), CoreDataType::Float);
    assert_eq!(own.print(), "16777216.00");
    let mut c = UserVariable::new();
    c.set_char(-1);
    c.raise_precision(&f);
    assert_eq!(c.print(), "-1.00");
}

#[test]
fn sample_quantisation_matches_scaling_by_256() {
    let samples = [
        0.0f32, -0.0, 0.5, 0.25, 0.75, 0.125, 0.999, 1.0, -1.0, 0.00390625, 0.0039, 1e-40, -1e-40,
        f32::MAX, f32::MIN, 1.7e38, f32::INFINITY, f32::NEG_INFINITY, f32::NAN, 255.0, 0.9961,
    ];
    for x in samples {
        assert_eq!(quantise_sample(x.to_bits()), (x * 256.0) as u8, "{x}");
    }
    let mut bits: u32 = 0;
    loop {
        let x = f32::from_bits(bits);
        assert_eq!(quantise_sample(bits), (x * 256.0) as u8, "{x}");
        match bits.checked_add(7_919) {
            Some(next) => bits = next,
            None => break,
        }
    }
}

fn long_var(v: i64) -> UserVariable {
    let mut u = UserVariable::new();
    u.set_long(v);
    u
}

#[test]
fn long_arithmetic_goes_through_f64() {
    let values = [
        0i64, 1, -1, 7, 1 << 53, (1 << 53) + 1, (1 << 53) + 3, -(1 << 53) - 1, (1 << 54) + 2,
        (1 << 54) + 6, 123_456_789_012_345_679, -987_654_321_987_654_321, 3_037_000_500,
        -3_037_000_500, 4_294_967_297, i64::MAX, i64::MIN, i64::MAX - 1, i64::MIN + 1,
        9_007_199_254_740_993, 1_000_000_000_000,
    ];
    for &a in &values {
        for &b in &values {
            let mut s = long_var(a);
            s.add_assign(&long_var(b));
            assert_eq!(s.as_i64(), ((a as f64) + (b as f64)) as i64, "{a} + {b}");
            let mut d = long_var(a);
            d.sub_assign(&long_var(b));
            assert_eq!(d.as_i64(), ((a as f64) - (b as f64)) as i64, "{a} - {b}");
            let mut m = long_var(a);
            m.mul_assign(&long_var(b));
            assert_eq!(m.as_i64(), ((a as f64) * (b as f64)) as i64, "{a} * {b}");
            assert_eq!(m.get_type(), CoreDataType::Long);
        }
    }
}

#[test]
fn long_addition_rounds_to_the_nearest_f64() {
    let mut s = long_var((1 << 53) + 1);
    s.add_assign(&long_var(0));
    assert_eq!(s.as_i64(), 1 << 53);
    let mut t = long_var(i64::MAX);
    t.add_assign(&long_var(1));
    assert_eq!(t.as_i64(), i64::MAX);
}
