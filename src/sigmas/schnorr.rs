//! Schnorr identification: knowledge of `x` with `P = x * G`.
use crate::absorb::{
    bound_vars, check_instance_count, check_witness_count, point_consts, scalar_consts,
    sealed_instance, sealed_witness, SymInstance, SymWitness,
};
use crate::absorb::{first_point_error, lemma_no_point_error};
use crate::compiler::{
    fresh_blinding, inputs_bound, prove, prove_result, prove_with_blinding, verify, verify_result,
    SigmaProof,
};
use crate::equations::{SymPoint, SymScalar};
use crate::errors::{SigmaProofError, SigmaProofResult};
use crate::group::{basepoint_encoding, point_from_encoding, Point, Scalar};
use crate::render::{spec, spec_document};
use vstd::prelude::*;
use vstd::string::StringSliceAdditionalSpecFns;

verus! {

pub struct SchnorrIdentityProtocol;

#[derive(Clone, Debug)]
pub struct SchnorrWitness {
    pub privatekey: SymScalar,
}

#[derive(Clone, Debug)]
pub struct SchnorrInstance {
    pub pubkey: SymPoint,
}

impl sealed_witness::Sealed for SchnorrWitness {}

impl sealed_instance::Sealed for SchnorrInstance {}

impl SymWitness for SchnorrWitness {
    open spec fn arity() -> nat {
        1
    }

    open spec fn leaves(&self) -> Seq<SymScalar> {
        seq![self.privatekey]
    }

    open spec fn spec_from_values(values: Seq<Scalar>) -> SchnorrWitness {
        SchnorrWitness { privatekey: SymScalar::Var(Some(values[0])) }
    }

    open spec fn var_names() -> Seq<Seq<char>> {
        seq!["privatekey"@]
    }

    proof fn lemma_arity(&self) {
    }

    proof fn lemma_from_values(values: Seq<Scalar>) {
        assert(bound_vars(values) =~= seq![SymScalar::Var(Some(values[0]))]);
    }

    fn rand() -> (r: SchnorrWitness) {
        SchnorrWitness { privatekey: SymScalar::Const(Scalar::random()) }
    }

    fn values(&self) -> (r: SigmaProofResult<Vec<Scalar>>) {
        let leaves = vec![self.privatekey.clone()];
        assert(leaves@ =~= self.leaves());
        crate::absorb::evaluate_scalars(&leaves)
    }

    fn from_values(scalars: &[Scalar]) -> (r: SigmaProofResult<SchnorrWitness>) {
        check_witness_count(1, scalars.len())?;
        Ok(SchnorrWitness { privatekey: SymScalar::Var(Some(scalars[0])) })
    }

    fn num_scalars() -> (n: usize) {
        1
    }

    fn get_var_name(index: usize) -> (r: &'static str) {
        if index == 0 {
            proof {
                reveal_strlit("privatekey");
            }
            "privatekey"
        } else {
            "unknown"
        }
    }
}

impl SymInstance for SchnorrInstance {
    open spec fn scalar_arity() -> nat {
        0
    }

    open spec fn point_arity() -> nat {
        1
    }

    open spec fn scalar_leaves(&self) -> Seq<SymScalar> {
        seq![]
    }

    open spec fn point_leaves(&self) -> Seq<SymPoint> {
        seq![self.pubkey]
    }

    open spec fn spec_from_values(scalars: Seq<Scalar>, points: Seq<Point>) -> SchnorrInstance {
        SchnorrInstance { pubkey: SymPoint::Const(points[0]) }
    }

    open spec fn field_names() -> Seq<Seq<char>> {
        seq!["pubkey"@]
    }

    proof fn lemma_arity(&self) {
    }

    proof fn lemma_from_values(scalars: Seq<Scalar>, points: Seq<Point>) {
        assert(scalar_consts(scalars) =~= seq![]);
        assert(point_consts(points) =~= seq![SymPoint::Const(points[0])]);
    }

    fn num_scalars() -> (n: usize) {
        0
    }

    fn num_points() -> (n: usize) {
        1
    }

    fn from_values(scalars: &[Scalar], points: &[Point]) -> (r: SigmaProofResult<SchnorrInstance>) {
        check_instance_count(0, 1, scalars.len(), points.len())?;
        Ok(SchnorrInstance { pubkey: SymPoint::Const(points[0]) })
    }

    fn get_field_names() -> (r: Vec<&'static str>) {
        proof {
            reveal_strlit("pubkey");
        }
        vec!["pubkey"]
    }

    fn points(&self) -> (r: Vec<SymPoint>) {
        let r = vec![self.pubkey.clone()];
        assert(r@ =~= self.point_leaves());
        r
    }

    fn scalars(&self) -> (r: Vec<SymScalar>) {
        Vec::new()
    }
}

impl SigmaProof for SchnorrIdentityProtocol {
    type WITNESS = SchnorrWitness;

    type INSTANCE = SchnorrInstance;

    open spec fn spec_label() -> Seq<u8> {
        "schnorr-identity-protocol".spec_bytes()
    }

    open spec fn spec_f(instance: SchnorrInstance) -> Seq<SymPoint> {
        seq![instance.pubkey]
    }

    open spec fn spec_psi(witness: SchnorrWitness, instance: SchnorrInstance) -> Seq<SymPoint> {
        seq![
            SymPoint::Scale(
                Box::new(witness.privatekey),
                Box::new(SymPoint::Const(point_from_encoding(basepoint_encoding()))),
            ),
        ]
    }

    fn label() -> (r: &'static [u8]) {
        "schnorr-identity-protocol".as_bytes()
    }

    fn f(instance: &SchnorrInstance) -> (r: Vec<SymPoint>) {
        let r = vec![instance.pubkey.clone()];
        assert(r@ =~= seq![instance.pubkey]);
        r
    }

    fn psi(witness: &SchnorrWitness, instance: &SchnorrInstance) -> (r: Vec<SymPoint>) {
        let r = vec![witness.privatekey.clone() * SymPoint::Const(Point::basepoint())];
        assert(r@ =~= Self::spec_psi(*witness, *instance));
        r
    }
}

impl SchnorrIdentityProtocol {
    /// Proves knowledge of `witness` for `instance` with fresh randomness:
    /// on bound inputs it succeeds, with a proof of 64 bytes.
    pub fn prove(witness: &SchnorrWitness, instance: &SchnorrInstance) -> (r: SigmaProofResult<Vec<u8>>)
        ensures
            r matches Ok(b) ==> exists|alpha: SchnorrWitness|
                #![trigger prove_result::<SchnorrIdentityProtocol>(*witness, *instance, alpha)]
                fresh_blinding(alpha) && prove_result::<SchnorrIdentityProtocol>(*witness, *instance, alpha)
                    == Ok::<Seq<u8>, SigmaProofError>(b@),
            r matches Err(e) ==> exists|alpha: SchnorrWitness|
                #![trigger prove_result::<SchnorrIdentityProtocol>(*witness, *instance, alpha)]
                fresh_blinding(alpha) && prove_result::<SchnorrIdentityProtocol>(*witness, *instance, alpha)
                    == Err::<Seq<u8>, SigmaProofError>(e),
            inputs_bound::<SchnorrIdentityProtocol>(*witness, *instance) ==> r is Ok,
            r matches Ok(b) ==> b@.len() == 64,
    {
        proof {
            reveal_with_fuel(SymPoint::value, 3);
            assert forall|alpha: SchnorrWitness| #![trigger fresh_blinding(alpha)] fresh_blinding(alpha)
                implies first_point_error(SchnorrIdentityProtocol::spec_psi(alpha, *instance)) is None by {
                assert forall|i: int| 0 <= i < alpha.leaves().len() implies (
                #[trigger] alpha.leaves()[i]).value() is Some by {
                    assert(alpha.leaves()[i] is Const);
                }
                let psi = SchnorrIdentityProtocol::spec_psi(alpha, *instance);
                assert forall|k: int| 0 <= k < psi.len() implies (#[trigger] psi[k]).value() is Ok by {
                    assert(alpha.leaves()[0].value() is Some);
                    assert(alpha.leaves()[alpha.leaves().len() - 1].value() is Some);
                }
                lemma_no_point_error(psi);
            }
        }
        let r = prove::<SchnorrIdentityProtocol>(witness, instance);
        proof {
            if r is Ok {
                let alpha = choose|alpha: SchnorrWitness| #![trigger prove_result::<SchnorrIdentityProtocol>(*witness, *instance, alpha)]
                    fresh_blinding(alpha) && prove_result::<SchnorrIdentityProtocol>(*witness, *instance, alpha)
                        == Ok::<Seq<u8>, SigmaProofError>(r->Ok_0@)
                        && r->Ok_0@.len() == 32 * (SchnorrIdentityProtocol::spec_psi(alpha, *instance).len()
                        + SchnorrWitness::arity());
                assert(SchnorrIdentityProtocol::spec_psi(alpha, *instance).len() + SchnorrWitness::arity() == 2);
            }
        }
        r
    }

    /// Proves knowledge of `witness` for `instance` with the given blinding.
    pub fn prove_with_blinding(
        witness: &SchnorrWitness,
        instance: &SchnorrInstance,
        blinding: &SchnorrWitness,
    ) -> (r: SigmaProofResult<Vec<u8>>)
        ensures
            r matches Ok(b) ==> prove_result::<SchnorrIdentityProtocol>(*witness, *instance, *blinding) == Ok::<
                Seq<u8>,
                SigmaProofError,
            >(b@),
            r matches Err(e) ==> prove_result::<SchnorrIdentityProtocol>(*witness, *instance, *blinding) == Err::<
                Seq<u8>,
                SigmaProofError,
            >(e),
    {
        prove_with_blinding::<SchnorrIdentityProtocol>(witness, instance, blinding)
    }

    /// Checks `proof` against `instance`.
    pub fn verify(instance: &SchnorrInstance, proof: &[u8]) -> (r: Result<(), SigmaProofError>)
        ensures
            r == verify_result::<SchnorrIdentityProtocol>(*instance, proof@),
    {
        verify::<SchnorrIdentityProtocol>(instance, proof)
    }

    /// The Markdown and LaTeX description of the protocol.
    pub fn spec() -> (r: String)
        ensures
            r@ == spec_document::<SchnorrIdentityProtocol>(),
    {
        spec::<SchnorrIdentityProtocol>()
    }
}

} // verus!
