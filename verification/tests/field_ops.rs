use byte_chip::field::{
    FIELD_ORDER, field_add, field_sub, field_mul, ExtElem, ext_zero, ext_one, ext_from_base,
    ext_add, ext_sub, ext_mul, ext_exp_power_of_2,
};

#[test]
fn test_base_add_wraps() {
    assert_eq!(field_add(1, 2), 3);
    assert_eq!(field_add(FIELD_ORDER - 1, 1), 0);
    assert_eq!(field_add(FIELD_ORDER - 1, FIELD_ORDER - 1), FIELD_ORDER - 2);
}

#[test]
fn test_base_sub_wraps() {
    assert_eq!(field_sub(5, 3), 2);
    assert_eq!(field_sub(0, 1), FIELD_ORDER - 1);
    assert_eq!(field_sub(3, 3), 0);
}

#[test]
fn test_base_mul_wraps() {
    assert_eq!(field_mul(3, 5), 15);
    // (p - 1)^2 = p^2 - 2p + 1 = 1 (mod p)
    assert_eq!(field_mul(FIELD_ORDER - 1, FIELD_ORDER - 1), 1);
    assert_eq!(field_mul(FIELD_ORDER - 1, 2), FIELD_ORDER - 2);
    // 2^32 * 2^32 = 2^64 = 2^32 - 1 (mod p), since p = 2^64 - 2^32 + 1.
    assert_eq!(field_mul(1 << 32, 1 << 32), (1 << 32) - 1);
}

#[test]
fn test_ext_ring_ops() {
    let zero = ext_zero();
    let one = ext_one();
    let x = ExtElem { c0: 0, c1: 1 };
    assert_eq!(ext_add(zero, one), one);
    assert_eq!(ext_sub(one, one), zero);
    // X * X = 7, the defining relation of the extension.
    assert_eq!(ext_mul(x, x), ExtElem { c0: 7, c1: 0 });
    // (2 + X)(3 + X) = 6 + 7 + 5X = 13 + 5X.
    let a = ExtElem { c0: 2, c1: 1 };
    let b = ExtElem { c0: 3, c1: 1 };
    assert_eq!(ext_mul(a, b), ExtElem { c0: 13, c1: 5 });
    assert_eq!(ext_mul(a, b), ext_mul(b, a));
    assert_eq!(ext_from_base(9), ExtElem { c0: 9, c1: 0 });
}

#[test]
fn test_ext_exp_power_of_2() {
    let two = ext_from_base(2);
    assert_eq!(ext_exp_power_of_2(two, 0), two);
    assert_eq!(ext_exp_power_of_2(two, 3), ext_from_base(256));
    let x = ExtElem { c0: 0, c1: 1 };
    // X^4 = 49.
    assert_eq!(ext_exp_power_of_2(x, 2), ext_from_base(49));
}
