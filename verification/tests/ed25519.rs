use cryptal::signatures::ed25519::fe::{
    fe_0, fe_1, fe_add, fe_cmov, fe_copy, fe_cswap, fe_frombytes, fe_neg, fe_sub, load_3, load_4,
    FE,
};
use cryptal::signatures::ed25519::field::FieldElement;
use cryptal::signatures::ed25519::ge::{cmov, equal, ge_p2_0, ge_p3_0, ge_p3_to_p2, negative, GeP2,
    GeP3, GePrecomp};

#[test]
fn load_words_little_endian() {
    let bytes = [0x01u8, 0x02, 0x03, 0x04];
    assert_eq!(load_3(&bytes), 0x030201);
    assert_eq!(load_4(&bytes), 0x04030201);
}

#[test]
fn fe_constants_and_linear_ops() {
    let mut z: FE = [7; 10];
    fe_0(&mut z);
    assert_eq!(z, [0; 10]);

    let mut o: FE = [7; 10];
    fe_1(&mut o);
    assert_eq!(o, [1, 0, 0, 0, 0, 0, 0, 0, 0, 0]);

    let f: FE = [1, -2, 3, -4, 5, -6, 7, -8, 9, -10];
    let g: FE = [10, 20, 30, 40, 50, 60, 70, 80, 90, 100];

    let mut sum: FE = [0; 10];
    fe_add(&mut sum, &f, &g);
    assert_eq!(sum, [11, 18, 33, 36, 55, 54, 77, 72, 99, 90]);

    let mut diff: FE = [0; 10];
    fe_sub(&mut diff, &g, &f);
    assert_eq!(diff, [9, 22, 27, 44, 45, 66, 63, 88, 81, 110]);

    let mut neg: FE = [0; 10];
    fe_neg(&mut neg, &f);
    assert_eq!(neg, [-1, 2, -3, 4, -5, 6, -7, 8, -9, 10]);

    let mut copy: FE = [0; 10];
    fe_copy(&mut copy, &f);
    assert_eq!(copy, f);
}

#[test]
fn fe_conditional_move_and_swap() {
    let f0: FE = [1, 2, 3, 4, 5, 6, 7, 8, 9, 10];
    let g0: FE = [-1, -2, -3, -4, -5, -6, -7, -8, -9, -10];

    let mut f = f0;
    fe_cmov(&mut f, &g0, 0);
    assert_eq!(f, f0);
    fe_cmov(&mut f, &g0, 1);
    assert_eq!(f, g0);

    let mut a = f0;
    let mut b = g0;
    fe_cswap(&mut a, &mut b, 0);
    assert_eq!(a, f0);
    assert_eq!(b, g0);
    fe_cswap(&mut a, &mut b, 1);
    assert_eq!(a, g0);
    assert_eq!(b, f0);
}

#[test]
fn fe_frombytes_decodes_small_values() {
    let mut h: FE = [9; 10];
    fe_frombytes(&mut h, &[0u8; 32]);
    assert_eq!(h, [0; 10]);

    let mut bytes = [0u8; 32];
    bytes[0] = 1;
    fe_frombytes(&mut h, &bytes);
    assert_eq!(h, [1, 0, 0, 0, 0, 0, 0, 0, 0, 0]);

    // The top bit of the last byte is masked off.
    let mut top = [0u8; 32];
    top[31] = 0x80;
    fe_frombytes(&mut h, &top);
    assert_eq!(h, [0; 10]);
}

#[test]
fn field_element_swap_and_move() {
    let mut a = FieldElement([1, 2, 3, 4, 5, 6, 7, 8, 9, 10]);
    let mut b = FieldElement([-1, -2, -3, -4, -5, -6, -7, -8, -9, -10]);
    a.swap(&mut b, 1);
    assert_eq!(a.0[0], -1);
    assert_eq!(b.0[0], 1);
    a.conditional_move(&b, 0);
    assert_eq!(a.0[0], -1);
    a.conditional_move(&b, 1);
    assert_eq!(a.0, b.0);
}

#[test]
fn constant_time_predicates() {
    assert_eq!(equal(3, 3), 1);
    assert_eq!(equal(3, -3), 0);
    assert_eq!(equal(-7, -7), 1);
    assert_eq!(equal(0, 1), 0);

    assert_eq!(negative(-1), 1);
    assert_eq!(negative(-128), 1);
    assert_eq!(negative(0), 0);
    assert_eq!(negative(127), 0);
}

#[test]
fn precomp_cmov_and_neutral_points() {
    let mut t = GePrecomp {
        yplusx: FieldElement::one(),
        yminusx: FieldElement::one(),
        xy2d: FieldElement::zero(),
    };
    let u = GePrecomp {
        yplusx: FieldElement([2; 10]),
        yminusx: FieldElement([3; 10]),
        xy2d: FieldElement([4; 10]),
    };
    cmov(&mut t, &u, 0);
    assert_eq!(t.yplusx.0, FieldElement::one().0);
    cmov(&mut t, &u, 1);
    assert_eq!(t.yplusx.0, [2; 10]);
    assert_eq!(t.yminusx.0, [3; 10]);
    assert_eq!(t.xy2d.0, [4; 10]);

    let mut p2 = GeP2 {
        x: FieldElement([5; 10]),
        y: FieldElement([5; 10]),
        z: FieldElement([5; 10]),
    };
    ge_p2_0(&mut p2);
    assert_eq!(p2.x.0, [0; 10]);
    assert_eq!(p2.y.0, FieldElement::one().0);
    assert_eq!(p2.z.0, FieldElement::one().0);

    let mut p3 = GeP3 {
        x: FieldElement([5; 10]),
        y: FieldElement([5; 10]),
        z: FieldElement([5; 10]),
        t: FieldElement([5; 10]),
    };
    ge_p3_0(&mut p3);
    assert_eq!(p3.t.0, [0; 10]);

    p3.x = FieldElement([11; 10]);
    p3.y = FieldElement([12; 10]);
    p3.z = FieldElement([13; 10]);
    ge_p3_to_p2(&mut p2, &p3);
    assert_eq!(p2.x.0, [11; 10]);
    assert_eq!(p2.y.0, [12; 10]);
    assert_eq!(p2.z.0, [13; 10]);
}
