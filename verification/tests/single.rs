use vad_profile::single::Single;

fn single(x: f32) -> Single {
    Single::from_bits(x.to_bits())
}

fn samples() -> Vec<f32> {
    let mut v = vec![
        0.0,
        -0.0,
        1.0,
        -1.0,
        0.5,
        -0.5,
        1.5,
        -1.5,
        2.0,
        2.5,
        -2.5,
        6.0,
        6.5,
        0.999_999_94,
        1.000_000_1,
        -0.999_999_94,
        1.6514893,
        16_777_215.0,
        16_777_216.0,
        -16_777_216.0,
        8_388_607.5,
        -8_388_607.5,
        4_194_303.8,
        2_147_483_648.0,
        4_294_967_296.0,
        9.223_372e18,
        -9.223_372e18,
        9.3e18,
        -9.3e18,
        1e30,
        -1e30,
        f32::MAX,
        f32::MIN,
        f32::MIN_POSITIVE,
        -f32::MIN_POSITIVE,
        f32::EPSILON,
        f32::INFINITY,
        f32::NEG_INFINITY,
        f32::NAN,
        -f32::NAN,
        f32::from_bits(1),
        f32::from_bits(0x8000_0001),
        f32::from_bits(0x007f_ffff),
        f32::from_bits(0x7fc0_0001),
        f32::from_bits(0xffff_ffff),
        f32::from_bits(0x7f80_0001),
    ];
    let mut bits: u32 = 0x1234_5678;
    for _ in 0..2000 {
        bits = bits.wrapping_mul(1_664_525).wrapping_add(1_013_904_223);
        v.push(f32::from_bits(bits));
    }
    v
}

#[test]
fn nan_test_agrees_with_floating_point() {
    for x in samples() {
        assert_eq!(single(x).is_nan(), x.is_nan(), "{:?}", x);
    }
}

#[test]
fn order_agrees_with_floating_point() {
    let xs = samples();
    for &a in &xs {
        for &b in xs.iter().take(200) {
            assert_eq!(single(a).lt(single(b)), a < b, "{:?} < {:?}", a, b);
            assert_eq!(single(a).ge(single(b)), a >= b, "{:?} >= {:?}", a, b);
            if !a.is_nan() && !b.is_nan() {
                assert_eq!(single(a).key() < single(b).key(), a < b);
                assert_eq!(single(a).key() == single(b).key(), a == b);
            }
        }
    }
}

#[test]
fn ceiling_agrees_with_floating_point() {
    for x in samples() {
        assert_eq!(single(x).ceil_i64(), x.ceil() as i64, "{:?}", x);
    }
}

#[test]
fn ceiling_of_chosen_values() {
    assert_eq!(single(0.0).ceil_i64(), 0);
    assert_eq!(single(-0.0).ceil_i64(), 0);
    assert_eq!(single(0.2).ceil_i64(), 1);
    assert_eq!(single(-0.2).ceil_i64(), 0);
    assert_eq!(single(1.0).ceil_i64(), 1);
    assert_eq!(single(1.000_000_1).ceil_i64(), 2);
    assert_eq!(single(-1.5).ceil_i64(), -1);
    assert_eq!(single(6.0).ceil_i64(), 6);
    assert_eq!(single(6.5).ceil_i64(), 7);
    assert_eq!(single(f32::from_bits(1)).ceil_i64(), 1);
    assert_eq!(single(f32::NAN).ceil_i64(), 0);
    assert_eq!(single(f32::INFINITY).ceil_i64(), i64::MAX);
    assert_eq!(single(f32::NEG_INFINITY).ceil_i64(), i64::MIN);
    assert_eq!(single(1e30).ceil_i64(), i64::MAX);
    assert_eq!(single(-1e30).ceil_i64(), i64::MIN);
    assert_eq!(single(549_755_813_888.0).ceil_i64(), 549_755_813_888);
}

#[test]
fn bits_round_trip() {
    assert_eq!(Single::from_bits(0x40c0_0000).to_bits(), 0x40c0_0000);
    assert_eq!(f32::from_bits(Single::from_bits(0x40c0_0000).to_bits()), 6.0);
    assert_eq!(single(1.0).key(), 0x3f80_0000);
    assert_eq!(single(-1.0).key(), -0x3f80_0000);
    assert_eq!(single(-0.0).key(), 0);
}
