//! Chaum-Pedersen: knowledge of `x` with `point1 = x * G` and `point2 = x * H`.
use crate::absorb::{
    bound_vars, check_instance_count, check_witness_count, point_consts, scalar_consts,
    sealed_instance, sealed_witness, SymInstance, SymWitness,
};
use crate::absorb::{first_point_error, lemma_no_point_error};
use crate::compiler::{
    fresh_blinding, inputs_bound, prove, prove_result, prove_with_blinding, verify, verify_result,
    SigmaProof,
};
use crate::equations::{SymPoint, SymScalar};
use crate::errors::{SigmaProofError, SigmaProofResult};
use crate::group::{Point, Scalar};
use crate::render::{spec, spec_document};
use crate::sigmas::{base_g, base_h, spec_g, spec_h};
use vstd::prelude::*;
use vstd::string::StringSliceAdditionalSpecFns;

verus! {

pub struct Chaum;

#[derive(Clone, Debug)]
pub struct ChaumWitness {
    pub x: SymScalar,
}

#[derive(Clone, Debug)]
pub struct ChaumInstance {
    pub point1: SymPoint,
    pub point2: SymPoint,
}

impl sealed_witness::Sealed for ChaumWitness {}

impl sealed_instance::Sealed for ChaumInstance {}

impl SymWitness for ChaumWitness {
    open spec fn arity() -> nat {
        1
    }

    open spec fn leaves(&self) -> Seq<SymScalar> {
        seq![self.x]
    }

    open spec fn spec_from_values(values: Seq<Scalar>) -> ChaumWitness {
        ChaumWitness { x: SymScalar::Var(Some(values[0])) }
    }

    open spec fn var_names() -> Seq<Seq<char>> {
        seq!["x"@]
    }

    proof fn lemma_arity(&self) {
    }

    proof fn lemma_from_values(values: Seq<Scalar>) {
        assert(bound_vars(values) =~= seq![SymScalar::Var(Some(values[0]))]);
    }

    fn rand() -> (r: ChaumWitness) {
        ChaumWitness { x: SymScalar::Const(Scalar::random()) }
    }

    fn values(&self) -> (r: SigmaProofResult<Vec<Scalar>>) {
        let leaves = vec![self.x.clone()];
        assert(leaves@ =~= self.leaves());
        crate::absorb::evaluate_scalars(&leaves)
    }

    fn from_values(scalars: &[Scalar]) -> (r: SigmaProofResult<ChaumWitness>) {
        check_witness_count(1, scalars.len())?;
        Ok(ChaumWitness { x: SymScalar::Var(Some(scalars[0])) })
    }

    fn num_scalars() -> (n: usize) {
        1
    }

    fn get_var_name(index: usize) -> (r: &'static str) {
        if index == 0 {
            proof {
                reveal_strlit("x");
            }
            "x"
        } else {
            "unknown"
        }
    }
}

impl SymInstance for ChaumInstance {
    open spec fn scalar_arity() -> nat {
        0
    }

    open spec fn point_arity() -> nat {
        2
    }

    open spec fn scalar_leaves(&self) -> Seq<SymScalar> {
        seq![]
    }

    open spec fn point_leaves(&self) -> Seq<SymPoint> {
        seq![self.point1, self.point2]
    }

    open spec fn spec_from_values(scalars: Seq<Scalar>, points: Seq<Point>) -> ChaumInstance {
        ChaumInstance { point1: SymPoint::Const(points[0]), point2: SymPoint::Const(points[1]) }
    }

    open spec fn field_names() -> Seq<Seq<char>> {
        seq!["point1"@, "point2"@]
    }

    proof fn lemma_arity(&self) {
    }

    proof fn lemma_from_values(scalars: Seq<Scalar>, points: Seq<Point>) {
        assert(scalar_consts(scalars) =~= seq![]);
        assert(point_consts(points) =~= seq![SymPoint::Const(points[0]), SymPoint::Const(points[1])]);
    }

    fn num_scalars() -> (n: usize) {
        0
    }

    fn num_points() -> (n: usize) {
        2
    }

    fn from_values(scalars: &[Scalar], points: &[Point]) -> (r: SigmaProofResult<ChaumInstance>) {
        check_instance_count(0, 2, scalars.len(), points.len())?;
        Ok(ChaumInstance { point1: SymPoint::Const(points[0]), point2: SymPoint::Const(points[1]) })
    }

    fn get_field_names() -> (r: Vec<&'static str>) {
        proof {
            reveal_strlit("point1");
            reveal_strlit("point2");
        }
        vec!["point1", "point2"]
    }

    fn points(&self) -> (r: Vec<SymPoint>) {
        let r = vec![self.point1.clone(), self.point2.clone()];
        assert(r@ =~= self.point_leaves());
        r
    }

    fn scalars(&self) -> (r: Vec<SymScalar>) {
        Vec::new()
    }
}

impl SigmaProof for Chaum {
    type WITNESS = ChaumWitness;

    type INSTANCE = ChaumInstance;

    open spec fn spec_label() -> Seq<u8> {
        "chaum-protocol".spec_bytes()
    }

    open spec fn spec_f(instance: ChaumInstance) -> Seq<SymPoint> {
        seq![instance.point1, instance.point2]
    }

    open spec fn spec_psi(witness: ChaumWitness, instance: ChaumInstance) -> Seq<SymPoint> {
        seq![
            SymPoint::Scale(Box::new(witness.x), Box::new(spec_g())),
            SymPoint::Scale(Box::new(witness.x), Box::new(spec_h())),
        ]
    }

    fn label() -> (r: &'static [u8]) {
        "chaum-protocol".as_bytes()
    }

    fn f(instance: &ChaumInstance) -> (r: Vec<SymPoint>) {
        let r = vec![instance.point1.clone(), instance.point2.clone()];
        assert(r@ =~= seq![instance.point1, instance.point2]);
        r
    }

    fn psi(witness: &ChaumWitness, instance: &ChaumInstance) -> (r: Vec<SymPoint>) {
        let r = vec![witness.x.clone() * base_g(), witness.x.clone() * base_h()];
        assert(r@ =~= Self::spec_psi(*witness, *instance));
        r
    }
}

impl Chaum {
    /// Proves knowledge of `witness` for `instance` with fresh randomness:
    /// on bound inputs it succeeds, with a proof of 96 bytes.
    pub fn prove(witness: &ChaumWitness, instance: &ChaumInstance) -> (r: SigmaProofResult<Vec<u8>>)
        ensures
            r matches Ok(b) ==> exists|alpha: ChaumWitness|
                #![trigger prove_result::<Chaum>(*witness, *instance, alpha)]
                fresh_blinding(alpha) && prove_result::<Chaum>(*witness, *instance, alpha)
                    == Ok::<Seq<u8>, SigmaProofError>(b@),
            r matches Err(e) ==> exists|alpha: ChaumWitness|
                #![trigger prove_result::<Chaum>(*witness, *instance, alpha)]
                fresh_blinding(alpha) && prove_result::<Chaum>(*witness, *instance, alpha)
                    == Err::<Seq<u8>, SigmaProofError>(e),
            inputs_bound::<Chaum>(*witness, *instance) ==> r is Ok,
            r matches Ok(b) ==> b@.len() == 96,
    {
        proof {
            reveal_with_fuel(SymPoint::value, 3);
            assert forall|alpha: ChaumWitness| #![trigger fresh_blinding(alpha)] fresh_blinding(alpha)
                implies first_point_error(Chaum::spec_psi(alpha, *instance)) is None by {
                assert forall|i: int| 0 <= i < alpha.leaves().len() implies (
                #[trigger] alpha.leaves()[i]).value() is Some by {
                    assert(alpha.leaves()[i] is Const);
                }
                let psi = Chaum::spec_psi(alpha, *instance);
                assert forall|k: int| 0 <= k < psi.len() implies (#[trigger] psi[k]).value() is Ok by {
                    assert(alpha.leaves()[0].value() is Some);
                    assert(alpha.leaves()[alpha.leaves().len() - 1].value() is Some);
                }
                lemma_no_point_error(psi);
            }
        }
        let r = prove::<Chaum>(witness, instance);
        proof {
            if r is Ok {
                let alpha = choose|alpha: ChaumWitness| #![trigger prove_result::<Chaum>(*witness, *instance, alpha)]
                    fresh_blinding(alpha) && prove_result::<Chaum>(*witness, *instance, alpha)
                        == Ok::<Seq<u8>, SigmaProofError>(r->Ok_0@)
                        && r->Ok_0@.len() == 32 * (Chaum::spec_psi(alpha, *instance).len()
                        + ChaumWitness::arity());
                assert(Chaum::spec_psi(alpha, *instance).len() + ChaumWitness::arity() == 3);
            }
        }
        r
    }

    /// Proves knowledge of `witness` for `instance` with the given blinding.
    pub fn prove_with_blinding(
        witness: &ChaumWitness,
        instance: &ChaumInstance,
        blinding: &ChaumWitness,
    ) -> (r: SigmaProofResult<Vec<u8>>)
        ensures
            r matches Ok(b) ==> prove_result::<Chaum>(*witness, *instance, *blinding) == Ok::<
                Seq<u8>,
                SigmaProofError,
            >(b@),
            r matches Err(e) ==> prove_result::<Chaum>(*witness, *instance, *blinding) == Err::<
                Seq<u8>,
                SigmaProofError,
            >(e),
    {
        prove_with_blinding::<Chaum>(witness, instance, blinding)
    }

    /// Checks `proof` against `instance`.
    pub fn verify(instance: &ChaumInstance, proof: &[u8]) -> (r: Result<(), SigmaProofError>)
        ensures
            r == verify_result::<Chaum>(*instance, proof@),
    {
        verify::<Chaum>(instance, proof)
    }

    /// The Markdown and LaTeX description of the protocol.
    pub fn spec() -> (r: String)
        ensures
            r@ == spec_document::<Chaum>(),
    {
        spec::<Chaum>()
    }
}

} // verus!
