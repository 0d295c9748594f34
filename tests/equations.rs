use sigma_proof_compiler::equations::{SymPoint, SymScalar};
use sigma_proof_compiler::errors::SigmaProofError;
use sigma_proof_compiler::group::{Point, Scalar};

fn konst(n: u64) -> SymScalar {
    SymScalar::Const(Scalar::from_u64(n))
}

fn basepoint_times(n: u64) -> Point {
    Point::basepoint().scale(&Scalar::from_u64(n))
}

#[test]
fn test_symscalar_operators() {
    let a = konst(5);
    let b = konst(3);

    let sum = a.clone() + b.clone();
    assert_eq!(sum.evaluate().unwrap().to_bytes(), Scalar::from_u64(8).to_bytes());

    let diff = a.clone() - b.clone();
    assert_eq!(diff.evaluate().unwrap().to_bytes(), Scalar::from_u64(2).to_bytes());

    let product = a.clone() * b.clone();
    assert_eq!(product.evaluate().unwrap().to_bytes(), Scalar::from_u64(15).to_bytes());

    let neg_a = -a.clone();
    assert_eq!(neg_a.evaluate().unwrap().to_bytes(), Scalar::from_u64(5).neg().to_bytes());
}

#[test]
fn test_sympoint_operators() {
    let scalar_2 = konst(2);
    let scalar_3 = konst(3);

    let point_a = SymPoint::Const(Point::basepoint());
    let point_b = scalar_2 * point_a.clone();
    let point_c = scalar_3 * point_a.clone();

    // (2*G) + (3*G) = 5*G
    let sum = point_b.clone() + point_c.clone();
    assert_eq!(sum.evaluate().unwrap().to_bytes(), basepoint_times(5).to_bytes());

    // (3*G) - (2*G) = G
    let diff = point_c - point_b;
    assert_eq!(diff.evaluate().unwrap().to_bytes(), Point::basepoint().to_bytes());

    // scaling by a plain scalar
    let scaled = Scalar::from_u64(4) * point_a;
    assert_eq!(scaled.evaluate().unwrap().to_bytes(), basepoint_times(4).to_bytes());
}

#[test]
fn test_mixed_operations() {
    let a = konst(2);
    let b = konst(3);
    let point = SymPoint::Const(Point::basepoint());

    // (2 + 3) * G = 5 * G
    let result = (a + b) * point;
    assert_eq!(result.evaluate().unwrap().to_bytes(), basepoint_times(5).to_bytes());
}

#[test]
fn scalar_arithmetic_reduces_modulo_the_order() {
    // 0 - 1 is the order minus one: 0x1000...14def9dea2f79cd65812631a5cf5d3ec
    let minus_one = Scalar::from_u64(0).sub(&Scalar::from_u64(1));
    let bytes = minus_one.to_bytes();
    assert_eq!(bytes[0], 0xec);
    assert_eq!(bytes[1], 0xd3);
    assert_eq!(bytes[31], 0x10);
    assert_eq!(minus_one.add(&Scalar::from_u64(1)).to_bytes(), [0u8; 32]);
    assert_eq!(Scalar::from_u64(7).mul(&Scalar::from_u64(6)).to_bytes(), Scalar::from_u64(42).to_bytes());
}

#[test]
fn scalar_encoding_is_little_endian() {
    let bytes = Scalar::from_u64(0x0102).to_bytes();
    assert_eq!(bytes[0], 0x02);
    assert_eq!(bytes[1], 0x01);
    assert!(bytes[2..].iter().all(|b| *b == 0));
}

#[test]
fn non_canonical_scalar_bytes_are_refused() {
    assert!(Scalar::from_canonical_bytes(&[0xff; 32]).is_none());
    let canonical = Scalar::from_u64(9).to_bytes();
    assert!(Scalar::from_canonical_bytes(&canonical).is_some());
}

#[test]
fn wide_reduction_of_small_value() {
    let mut wide = [0u8; 64];
    wide[0] = 17;
    assert_eq!(Scalar::from_bytes_mod_order_wide(&wide).to_bytes(), Scalar::from_u64(17).to_bytes());
}

#[test]
fn basepoint_has_its_documented_encoding() {
    let g = Point::basepoint().to_bytes();
    assert_eq!(g[0], 0xe2);
    assert_eq!(g[31], 0x76);
    assert!(Point::from_bytes(&g).is_some());
    assert!(Point::from_bytes(&[0xff; 32]).is_none());
}

#[test]
fn point_negation_and_subtraction_agree() {
    let g = Point::basepoint();
    let two_g = g.add(&g);
    assert_eq!(two_g.sub(&g).to_bytes(), g.to_bytes());
    assert_eq!(g.add(&g.neg()).to_bytes(), g.sub(&g).to_bytes());
    assert!(!two_g.equals(&g));
    assert!(two_g.equals(&basepoint_times(2)));
}

#[test]
fn evaluate_homomorphism_on_scalars() {
    let a = konst(11);
    let b = konst(4);
    let av = a.evaluate().unwrap();
    let bv = b.evaluate().unwrap();
    assert_eq!((a.clone() + b.clone()).evaluate().unwrap().to_bytes(), av.add(&bv).to_bytes());
    assert_eq!((a.clone() - b.clone()).evaluate().unwrap().to_bytes(), av.sub(&bv).to_bytes());
    assert_eq!((a.clone() * b.clone()).evaluate().unwrap().to_bytes(), av.mul(&bv).to_bytes());
    assert_eq!((-a).evaluate().unwrap().to_bytes(), av.neg().to_bytes());
}

#[test]
fn evaluate_homomorphism_on_points() {
    let p = SymPoint::Const(basepoint_times(3));
    let q = SymPoint::Const(basepoint_times(8));
    let pv = p.evaluate().unwrap();
    let qv = q.evaluate().unwrap();
    assert_eq!((p.clone() + q.clone()).evaluate().unwrap().to_bytes(), pv.add(&qv).to_bytes());
    assert_eq!((p.clone() - q.clone()).evaluate().unwrap().to_bytes(), pv.sub(&qv).to_bytes());
    assert_eq!((-p.clone()).evaluate().unwrap().to_bytes(), pv.neg().to_bytes());
    let k = Scalar::from_u64(5);
    assert_eq!(
        (SymScalar::Const(k) * p).evaluate().unwrap().to_bytes(),
        pv.scale(&k).to_bytes()
    );
}

#[test]
fn uninstantiated_leaves_fail_to_evaluate() {
    let unbound = SymScalar::Var(None);
    let e = (konst(2) * (konst(3) + unbound.clone())).evaluate();
    assert!(matches!(e, Err(SigmaProofError::UninstantiatedScalar)));

    let p = SymPoint::Const(Point::basepoint()) + SymPoint::Var(None);
    assert!(matches!(p.evaluate(), Err(SigmaProofError::UninstantiatedPoint)));

    let scaled = unbound * SymPoint::Const(Point::basepoint());
    assert!(matches!(scaled.evaluate(), Err(SigmaProofError::UninstantiatedScalar)));

    let bound = SymScalar::Var(Some(Scalar::from_u64(4)));
    assert_eq!(bound.evaluate().unwrap().to_bytes(), Scalar::from_u64(4).to_bytes());
}
