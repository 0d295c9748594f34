use sigma_proof_compiler::absorb::{SymInstance, SymWitness};
use sigma_proof_compiler::compiler::check_equations;
use sigma_proof_compiler::equations::{SymPoint, SymScalar};
use sigma_proof_compiler::errors::SigmaProofError;
use sigma_proof_compiler::group::{Point, Scalar};
use sigma_proof_compiler::sigmas::chaum::{Chaum, ChaumInstance, ChaumWitness};
use sigma_proof_compiler::sigmas::okamoto::{Okamoto, OkamotoInstance, OkamotoWitness};
use sigma_proof_compiler::sigmas::schnorr::{SchnorrIdentityProtocol, SchnorrInstance, SchnorrWitness};
use sigma_proof_compiler::sigmas::zero::{ZeroCheckInstance, ZeroCheckProtocol, ZeroCheckWitness};
use sigma_proof_compiler::sigmas::{base_g, base_h};

fn times(k: &Scalar, p: &SymPoint) -> Point {
    p.evaluate().unwrap().scale(k)
}

fn schnorr_pair(x: u64) -> (SchnorrWitness, SchnorrInstance) {
    let sk = Scalar::from_u64(x);
    let witness = SchnorrWitness { privatekey: SymScalar::Const(sk) };
    let pk = Point::basepoint().scale(&sk);
    (witness, SchnorrInstance { pubkey: SymPoint::Const(pk) })
}

#[test]
fn test_schnorr_identity_protocol() {
    let sk = Scalar::random();
    let witness = SchnorrWitness { privatekey: SymScalar::Const(sk) };
    let pk = Point::basepoint().scale(&sk);
    let instance = SchnorrInstance { pubkey: SymPoint::Const(pk) };

    let proof = SchnorrIdentityProtocol::prove(&witness, &instance).unwrap();
    println!("Schnorr proof: {:?}", proof);
    SchnorrIdentityProtocol::verify(&instance, &proof).unwrap();
}

#[test]
fn test_okamoto_identity_protocol() {
    let sk = Scalar::random();
    let witness = OkamotoWitness { x: SymScalar::Const(sk), y: SymScalar::Const(sk) };
    let point = SymPoint::Const(times(&sk, &base_g()).add(&times(&sk, &base_h())));
    let instance = OkamotoInstance { point };

    let proof = Okamoto::prove(&witness, &instance).unwrap();
    println!("Okamoto proof: {:?}", proof);
    Okamoto::verify(&instance, &proof).unwrap();
}

#[test]
fn test_chaum_identity_protocol() {
    let sk = Scalar::random();
    let witness = ChaumWitness { x: SymScalar::Const(sk) };
    let instance = ChaumInstance {
        point1: SymPoint::Const(times(&sk, &base_g())),
        point2: SymPoint::Const(times(&sk, &base_h())),
    };

    let proof = Chaum::prove(&witness, &instance).unwrap();
    println!("Chaum proof: {:?}", proof);
    Chaum::verify(&instance, &proof).unwrap();
}

#[test]
fn test_zero_check_protocol() {
    let secret = Scalar::random();
    let witness = ZeroCheckWitness { secret_key: SymScalar::Const(secret) };
    let public_key = times(&Scalar::random(), &base_g());
    let commitment = times(&secret, &base_g());
    let handle = public_key.scale(&secret);
    let instance = ZeroCheckInstance {
        pubkey: SymPoint::Const(public_key),
        commitment: SymPoint::Const(commitment),
        handle: SymPoint::Const(handle),
    };

    let proof = ZeroCheckProtocol::prove(&witness, &instance).unwrap();
    println!("Zero check proof: {} bytes", proof.len());
    ZeroCheckProtocol::verify(&instance, &proof).unwrap();
}

#[test]
fn test_zero_check_invalid_proof() {
    let secret = Scalar::random();
    let witness = ZeroCheckWitness { secret_key: SymScalar::Const(secret) };
    let public_key = Point::basepoint().scale(&Scalar::random());
    let wrong_secret = Scalar::random();
    let commitment = Point::basepoint().scale(&wrong_secret);
    let handle = public_key.scale(&wrong_secret);
    let instance = ZeroCheckInstance {
        pubkey: SymPoint::Const(public_key),
        commitment: SymPoint::Const(commitment),
        handle: SymPoint::Const(handle),
    };

    let proof = ZeroCheckProtocol::prove(&witness, &instance).unwrap();
    assert!(ZeroCheckProtocol::verify(&instance, &proof).is_err());
}

#[test]
fn schnorr_proof_is_one_commitment_and_one_response() {
    let (witness, instance) = schnorr_pair(7);
    let proof = SchnorrIdentityProtocol::prove(&witness, &instance).unwrap();
    assert_eq!(proof.len(), 64);
    SchnorrIdentityProtocol::verify(&instance, &proof).unwrap();

    let mut mutated = proof.clone();
    mutated[63] ^= 0x01;
    let r = SchnorrIdentityProtocol::verify(&instance, &mutated);
    assert!(matches!(
        r,
        Err(SigmaProofError::EquationCheckFailed) | Err(SigmaProofError::TranscriptError)
    ));
}

#[test]
fn every_flipped_byte_is_rejected() {
    let (witness, instance) = schnorr_pair(7);
    let proof = SchnorrIdentityProtocol::prove(&witness, &instance).unwrap();
    for i in 0..proof.len() {
        let mut mutated = proof.clone();
        mutated[i] ^= 0x80;
        assert!(SchnorrIdentityProtocol::verify(&instance, &mutated).is_err());
    }
}

#[test]
fn altered_instance_is_rejected() {
    let (witness, instance) = schnorr_pair(7);
    let proof = SchnorrIdentityProtocol::prove(&witness, &instance).unwrap();
    let (_, other) = schnorr_pair(8);
    assert!(matches!(
        SchnorrIdentityProtocol::verify(&other, &proof),
        Err(SigmaProofError::EquationCheckFailed)
    ));
}

#[test]
fn bad_witness_is_rejected() {
    let (_, instance) = schnorr_pair(7);
    let (wrong, _) = schnorr_pair(9);
    let proof = SchnorrIdentityProtocol::prove(&wrong, &instance).unwrap();
    assert!(matches!(
        SchnorrIdentityProtocol::verify(&instance, &proof),
        Err(SigmaProofError::EquationCheckFailed)
    ));
}

#[test]
fn okamoto_scenario() {
    let x = Scalar::from_u64(3);
    let y = Scalar::from_u64(5);
    let witness = OkamotoWitness { x: SymScalar::Const(x), y: SymScalar::Const(y) };
    let q = times(&x, &base_g()).add(&times(&y, &base_h()));
    let instance = OkamotoInstance { point: SymPoint::Const(q) };
    let proof = Okamoto::prove(&witness, &instance).unwrap();
    assert_eq!(proof.len(), 96);
    Okamoto::verify(&instance, &proof).unwrap();
}

#[test]
fn chaum_scenario_with_substituted_base() {
    let x = Scalar::from_u64(12);
    let witness = ChaumWitness { x: SymScalar::Const(x) };
    let instance = ChaumInstance {
        point1: SymPoint::Const(times(&x, &base_g())),
        point2: SymPoint::Const(times(&x, &base_h())),
    };
    let proof = Chaum::prove(&witness, &instance).unwrap();
    assert_eq!(proof.len(), 96);
    Chaum::verify(&instance, &proof).unwrap();

    let substituted = ChaumInstance {
        point1: SymPoint::Const(times(&x, &base_g())),
        point2: SymPoint::Const(times(&x, &base_g())),
    };
    let proof = Chaum::prove(&witness, &substituted).unwrap();
    assert!(Chaum::verify(&substituted, &proof).is_err());
}

#[test]
fn zero_check_scenario() {
    let s = Scalar::from_u64(21);
    let other = Scalar::from_u64(22);
    let pubkey = Point::basepoint().scale(&Scalar::from_u64(5));
    let witness = ZeroCheckWitness { secret_key: SymScalar::Const(s) };
    let valid = ZeroCheckInstance {
        pubkey: SymPoint::Const(pubkey),
        commitment: SymPoint::Const(times(&s, &base_g())),
        handle: SymPoint::Const(pubkey.scale(&s)),
    };
    let proof = ZeroCheckProtocol::prove(&witness, &valid).unwrap();
    assert_eq!(proof.len(), 96);
    ZeroCheckProtocol::verify(&valid, &proof).unwrap();

    let invalid = ZeroCheckInstance {
        pubkey: SymPoint::Const(pubkey),
        commitment: SymPoint::Const(times(&other, &base_g())),
        handle: SymPoint::Const(pubkey.scale(&s)),
    };
    let proof = ZeroCheckProtocol::prove(&witness, &invalid).unwrap();
    assert!(ZeroCheckProtocol::verify(&invalid, &proof).is_err());
}

#[test]
fn proof_bytes_are_stable_for_fixed_blinding() {
    let (witness, instance) = schnorr_pair(7);
    let blinding = SchnorrWitness { privatekey: SymScalar::Const(Scalar::from_u64(1234)) };
    let first = SchnorrIdentityProtocol::prove_with_blinding(&witness, &instance, &blinding).unwrap();
    let second = SchnorrIdentityProtocol::prove_with_blinding(&witness, &instance, &blinding).unwrap();
    assert_eq!(first, second);
    assert_eq!(first.len(), 64);
    // the commitment is 1234 * G
    let commitment = Point::basepoint().scale(&Scalar::from_u64(1234)).to_bytes();
    assert_eq!(&first[..32], &commitment[..]);
    SchnorrIdentityProtocol::verify(&instance, &first).unwrap();
}

#[test]
fn mismatched_arities_are_reported() {
    let g = Point::basepoint();
    let psi = vec![SymPoint::Const(g), SymPoint::Const(g)];
    let a = vec![g, g, g];
    let x = vec![g, g, g];
    let e = Scalar::from_u64(1);
    assert!(matches!(
        check_equations(&psi, &a, &e, &x),
        Err(SigmaProofError::PsiOutputLengthMismatch)
    ));
}

#[test]
fn equation_check_accepts_exact_relation() {
    let g = Point::basepoint();
    let e = Scalar::from_u64(3);
    // psi = 7G, a = G, x = 2G: G + 3 * 2G = 7G
    let psi = vec![SymPoint::Const(g.scale(&Scalar::from_u64(7)))];
    let a = vec![g];
    let x = vec![g.scale(&Scalar::from_u64(2))];
    assert!(check_equations(&psi, &a, &e, &x).is_ok());
    let off = vec![SymPoint::Const(g.scale(&Scalar::from_u64(8)))];
    assert!(matches!(
        check_equations(&off, &a, &e, &x),
        Err(SigmaProofError::EquationCheckFailed)
    ));
    let unbound = vec![SymPoint::Var(None)];
    assert!(matches!(
        check_equations(&unbound, &a, &e, &x),
        Err(SigmaProofError::UninstantiatedPoint)
    ));
}

#[test]
fn proof_length_must_be_a_multiple_of_32() {
    let (_, instance) = schnorr_pair(7);
    let proof = vec![0u8; 33];
    assert!(matches!(
        SchnorrIdentityProtocol::verify(&instance, &proof),
        Err(SigmaProofError::TranscriptFinalizationFailed)
    ));
}

#[test]
fn short_or_invalid_proofs_are_transcript_errors() {
    let (_, instance) = schnorr_pair(7);
    assert!(matches!(
        SchnorrIdentityProtocol::verify(&instance, &[]),
        Err(SigmaProofError::TranscriptError)
    ));
    let bad_point = vec![0xffu8; 64];
    assert!(matches!(
        SchnorrIdentityProtocol::verify(&instance, &bad_point),
        Err(SigmaProofError::TranscriptError)
    ));
    let mut bad_scalar = Point::basepoint().to_bytes().to_vec();
    bad_scalar.extend_from_slice(&[0xff; 32]);
    assert!(matches!(
        SchnorrIdentityProtocol::verify(&instance, &bad_scalar),
        Err(SigmaProofError::TranscriptError)
    ));
}

#[test]
fn wrong_response_count_is_a_count_error() {
    let (_, instance) = schnorr_pair(7);
    let mut proof = Point::basepoint().to_bytes().to_vec();
    assert!(matches!(
        SchnorrIdentityProtocol::verify(&instance, &proof),
        Err(SigmaProofError::InsufficientScalars)
    ));
    proof.extend_from_slice(&Scalar::from_u64(1).to_bytes());
    proof.extend_from_slice(&Scalar::from_u64(2).to_bytes());
    assert!(matches!(
        SchnorrIdentityProtocol::verify(&instance, &proof),
        Err(SigmaProofError::TooManyScalars { expected: 1, actual: 2 })
    ));
}

#[test]
fn unbound_instance_or_witness_fails_to_prove() {
    let (witness, _) = schnorr_pair(7);
    let unbound = SchnorrInstance { pubkey: SymPoint::Var(None) };
    assert!(matches!(
        SchnorrIdentityProtocol::prove(&witness, &unbound),
        Err(SigmaProofError::UninstantiatedPoint)
    ));
    let (_, instance) = schnorr_pair(7);
    let no_secret = SchnorrWitness { privatekey: SymScalar::Var(None) };
    assert!(matches!(
        SchnorrIdentityProtocol::prove(&no_secret, &instance),
        Err(SigmaProofError::UninstantiatedScalar)
    ));
}

#[test]
fn witness_reflection_round_trips() {
    let w = OkamotoWitness { x: SymScalar::Const(Scalar::from_u64(3)), y: SymScalar::Const(Scalar::from_u64(5)) };
    let values = w.values().unwrap();
    assert_eq!(values.len(), OkamotoWitness::num_scalars());
    let back = OkamotoWitness::from_values(&values).unwrap();
    let again = back.values().unwrap();
    assert_eq!(again.len(), 2);
    assert_eq!(again[0].to_bytes(), Scalar::from_u64(3).to_bytes());
    assert_eq!(again[1].to_bytes(), Scalar::from_u64(5).to_bytes());
    assert_eq!(OkamotoWitness::get_var_name(0), "x");
    assert_eq!(OkamotoWitness::get_var_name(1), "y");
    assert_eq!(OkamotoWitness::get_var_name(2), "unknown");
    assert!(matches!(OkamotoWitness::from_values(&values[..1]), Err(SigmaProofError::InsufficientScalars)));
}

#[test]
fn instance_reflection_round_trips() {
    let g = Point::basepoint();
    let h = base_h().evaluate().unwrap();
    let x = ZeroCheckInstance::from_values(&[], &[g, h, g]).unwrap();
    assert_eq!(x.points().len(), ZeroCheckInstance::num_points());
    assert_eq!(x.scalars().len(), ZeroCheckInstance::num_scalars());
    let names = ZeroCheckInstance::get_field_names();
    assert_eq!(names, vec!["pubkey", "commitment", "handle"]);
    assert_eq!(names.len(), ZeroCheckInstance::num_scalars() + ZeroCheckInstance::num_points());
    let pts: Vec<[u8; 32]> = x.points().iter().map(|p| p.evaluate().unwrap().to_bytes()).collect();
    assert_eq!(pts, vec![g.to_bytes(), h.to_bytes(), g.to_bytes()]);
    assert!(matches!(
        ZeroCheckInstance::from_values(&[], &[g, h]),
        Err(SigmaProofError::InsufficientPoints)
    ));
    assert!(matches!(
        ZeroCheckInstance::from_values(&[Scalar::from_u64(1)], &[g, h, g]),
        Err(SigmaProofError::TooManyScalars { expected: 0, actual: 1 })
    ));
}

#[test]
fn leaf_reflection() {
    let s = SymScalar::Const(Scalar::from_u64(6));
    assert_eq!(<SymScalar as SymWitness>::num_scalars(), 1);
    assert_eq!(<SymScalar as SymWitness>::values(&s).unwrap()[0].to_bytes(), Scalar::from_u64(6).to_bytes());
    assert!(matches!(
        <SymScalar as SymWitness>::values(&SymScalar::Var(None)),
        Err(SigmaProofError::UninstantiatedScalar)
    ));
    assert!(matches!(
        <SymScalar as SymWitness>::from_values(&[]),
        Err(SigmaProofError::InsufficientScalars)
    ));
    assert_eq!(<SymScalar as SymWitness>::get_var_name(0), "s");
    assert_eq!(<SymPoint as SymInstance>::get_field_names(), vec!["point"]);
    assert_eq!(<SymScalar as SymInstance>::get_field_names(), vec!["scalar"]);
    assert!(<SymPoint as SymInstance>::from_values(&[], &[Point::basepoint()]).is_ok());
}

#[test]
fn generators_are_distinct_and_named() {
    let g = base_g();
    let h = base_h();
    assert!(matches!(g, SymPoint::WellKnownConst("G", _)));
    assert!(matches!(h, SymPoint::WellKnownConst("H", _)));
    assert!(!g.evaluate().unwrap().equals(&h.evaluate().unwrap()));
    assert_eq!(g.evaluate().unwrap().to_bytes(), Point::basepoint().to_bytes());
}

#[test]
fn test_schnorr_spec_generation() {
    let spec = SchnorrIdentityProtocol::spec();
    println!("{spec}");
    assert!(spec.starts_with("The Sigma protocol is labeled as `schnorr-identity-protocol`."));
    assert!(spec.contains("\\texttt{privatekey}"));
    assert!(spec.contains("* $\\texttt{privatekey} \\cdot G = \\texttt{pubkey}$"));
}

#[test]
fn test_okamoto_spec_generation() {
    let spec = Okamoto::spec();
    println!("{spec}");
    assert!(spec.contains("(\\texttt{x} \\cdot G + \\texttt{y} \\cdot H)"));
    assert!(spec.contains("\\psi : \\mathbb{F}^{2} &\\to \\mathbb{G}^{1}"));
}

#[test]
fn test_chaum_spec_generation() {
    let spec = Chaum::spec();
    println!("{spec}");
    assert!(spec.contains("\\texttt{x} \\cdot G, \\texttt{x} \\cdot H"));
    assert!(spec.contains("\\texttt{point1}, \\texttt{point2}"));
}

#[test]
fn test_zero_check_spec_generation() {
    let spec = ZeroCheckProtocol::spec();
    println!("{spec}");
    assert!(spec.contains("\\texttt{secret\\_key} \\cdot \\texttt{pubkey}"));
    assert!(spec.contains("f : \\mathbb{F}^{0} \\times \\mathbb{G}^{3} &\\to \\mathbb{G}^{2}"));
}

#[test]
fn latex_var_escapes_underscores() {
    assert_eq!(sigma_proof_compiler::render::latex_var("secret_key"), "\\texttt{secret\\_key}");
    assert_eq!(sigma_proof_compiler::render::latex_var("x"), "\\texttt{x}");
    assert_eq!(sigma_proof_compiler::render::decimal(1204), "1204");
}
