//! Okamoto: knowledge of `x, y` with `Q = x * G + y * H`.
use crate::absorb::{
    bound_vars, check_instance_count, check_witness_count, point_consts, scalar_consts,
    sealed_instance, sealed_witness, SymInstance, SymWitness,
};
use crate::absorb::{first_point_error, lemma_no_point_error};
use crate::compiler::{
    fresh_blinding, inputs_bound, prove, prove_result, prove_with_blinding, verify, verify_result,
    SigmaProof,
};
use crate::equations::{SymPoint, SymScalar};
use crate::errors::{SigmaProofError, SigmaProofResult};
use crate::group::{Point, Scalar};
use crate::render::{spec, spec_document};
use crate::sigmas::{base_g, base_h, spec_g, spec_h};
use vstd::prelude::*;
use vstd::string::StringSliceAdditionalSpecFns;

verus! {

pub struct Okamoto;

#[derive(Clone, Debug)]
pub struct OkamotoWitness {
    pub x: SymScalar,
    pub y: SymScalar,
}

#[derive(Clone, Debug)]
pub struct OkamotoInstance {
    pub point: SymPoint,
}

impl sealed_witness::Sealed for OkamotoWitness {}

impl sealed_instance::Sealed for OkamotoInstance {}

impl SymWitness for OkamotoWitness {
    open spec fn arity() -> nat {
        2
    }

    open spec fn leaves(&self) -> Seq<SymScalar> {
        seq![self.x, self.y]
    }

    open spec fn spec_from_values(values: Seq<Scalar>) -> OkamotoWitness {
        OkamotoWitness { x: SymScalar::Var(Some(values[0])), y: SymScalar::Var(Some(values[1])) }
    }

    open spec fn var_names() -> Seq<Seq<char>> {
        seq!["x"@, "y"@]
    }

    proof fn lemma_arity(&self) {
    }

    proof fn lemma_from_values(values: Seq<Scalar>) {
        assert(bound_vars(values) =~= seq![SymScalar::Var(Some(values[0])), SymScalar::Var(Some(values[1]))]);
    }

    fn rand() -> (r: OkamotoWitness) {
        OkamotoWitness { x: SymScalar::Const(Scalar::random()), y: SymScalar::Const(Scalar::random()) }
    }

    fn values(&self) -> (r: SigmaProofResult<Vec<Scalar>>) {
        let leaves = vec![self.x.clone(), self.y.clone()];
        assert(leaves@ =~= self.leaves());
        crate::absorb::evaluate_scalars(&leaves)
    }

    fn from_values(scalars: &[Scalar]) -> (r: SigmaProofResult<OkamotoWitness>) {
        check_witness_count(2, scalars.len())?;
        Ok(OkamotoWitness { x: SymScalar::Var(Some(scalars[0])), y: SymScalar::Var(Some(scalars[1])) })
    }

    fn num_scalars() -> (n: usize) {
        2
    }

    fn get_var_name(index: usize) -> (r: &'static str) {
        if index == 0 {
            proof {
                reveal_strlit("x");
            }
            "x"
        } else if index == 1 {
            proof {
                reveal_strlit("y");
            }
            "y"
        } else {
            "unknown"
        }
    }
}

impl SymInstance for OkamotoInstance {
    open spec fn scalar_arity() -> nat {
        0
    }

    open spec fn point_arity() -> nat {
        1
    }

    open spec fn scalar_leaves(&self) -> Seq<SymScalar> {
        seq![]
    }

    open spec fn point_leaves(&self) -> Seq<SymPoint> {
        seq![self.point]
    }

    open spec fn spec_from_values(scalars: Seq<Scalar>, points: Seq<Point>) -> OkamotoInstance {
        OkamotoInstance { point: SymPoint::Const(points[0]) }
    }

    open spec fn field_names() -> Seq<Seq<char>> {
        seq!["point"@]
    }

    proof fn lemma_arity(&self) {
    }

    proof fn lemma_from_values(scalars: Seq<Scalar>, points: Seq<Point>) {
        assert(scalar_consts(scalars) =~= seq![]);
        assert(point_consts(points) =~= seq![SymPoint::Const(points[0])]);
    }

    fn num_scalars() -> (n: usize) {
        0
    }

    fn num_points() -> (n: usize) {
        1
    }

    fn from_values(scalars: &[Scalar], points: &[Point]) -> (r: SigmaProofResult<OkamotoInstance>) {
        check_instance_count(0, 1, scalars.len(), points.len())?;
        Ok(OkamotoInstance { point: SymPoint::Const(points[0]) })
    }

    fn get_field_names() -> (r: Vec<&'static str>) {
        proof {
            reveal_strlit("point");
        }
        vec!["point"]
    }

    fn points(&self) -> (r: Vec<SymPoint>) {
        let r = vec![self.point.clone()];
        assert(r@ =~= self.point_leaves());
        r
    }

    fn scalars(&self) -> (r: Vec<SymScalar>) {
        Vec::new()
    }
}

impl SigmaProof for Okamoto {
    type WITNESS = OkamotoWitness;

    type INSTANCE = OkamotoInstance;

    open spec fn spec_label() -> Seq<u8> {
        "okamoto-protocol".spec_bytes()
    }

    open spec fn spec_f(instance: OkamotoInstance) -> Seq<SymPoint> {
        seq![instance.point]
    }

    open spec fn spec_psi(witness: OkamotoWitness, instance: OkamotoInstance) -> Seq<SymPoint> {
        seq![
            SymPoint::Add(
                Box::new(SymPoint::Scale(Box::new(witness.x), Box::new(spec_g()))),
                Box::new(SymPoint::Scale(Box::new(witness.y), Box::new(spec_h()))),
            ),
        ]
    }

    fn label() -> (r: &'static [u8]) {
        "okamoto-protocol".as_bytes()
    }

    fn f(instance: &OkamotoInstance) -> (r: Vec<SymPoint>) {
        let r = vec![instance.point.clone()];
        assert(r@ =~= seq![instance.point]);
        r
    }

    fn psi(witness: &OkamotoWitness, instance: &OkamotoInstance) -> (r: Vec<SymPoint>) {
        let gx = witness.x.clone() * base_g();
        let hy = witness.y.clone() * base_h();
        let r = vec![gx + hy];
        assert(r@ =~= Self::spec_psi(*witness, *instance));
        r
    }
}

impl Okamoto {
    /// Proves knowledge of `witness` for `instance` with fresh randomness:
    /// on bound inputs it succeeds, with a proof of 96 bytes.
    pub fn prove(witness: &OkamotoWitness, instance: &OkamotoInstance) -> (r: SigmaProofResult<Vec<u8>>)
        ensures
            r matches Ok(b) ==> exists|alpha: OkamotoWitness|
                #![trigger prove_result::<Okamoto>(*witness, *instance, alpha)]
                fresh_blinding(alpha) && prove_result::<Okamoto>(*witness, *instance, alpha)
                    == Ok::<Seq<u8>, SigmaProofError>(b@),
            r matches Err(e) ==> exists|alpha: OkamotoWitness|
                #![trigger prove_result::<Okamoto>(*witness, *instance, alpha)]
                fresh_blinding(alpha) && prove_result::<Okamoto>(*witness, *instance, alpha)
                    == Err::<Seq<u8>, SigmaProofError>(e),
            inputs_bound::<Okamoto>(*witness, *instance) ==> r is Ok,
            r matches Ok(b) ==> b@.len() == 96,
    {
        proof {
            reveal_with_fuel(SymPoint::value, 3);
            assert forall|alpha: OkamotoWitness| #![trigger fresh_blinding(alpha)] fresh_blinding(alpha)
                implies first_point_error(Okamoto::spec_psi(alpha, *instance)) is None by {
                assert forall|i: int| 0 <= i < alpha.leaves().len() implies (
                #[trigger] alpha.leaves()[i]).value() is Some by {
                    assert(alpha.leaves()[i] is Const);
                }
                let psi = Okamoto::spec_psi(alpha, *instance);
                assert forall|k: int| 0 <= k < psi.len() implies (#[trigger] psi[k]).value() is Ok by {
                    assert(alpha.leaves()[0].value() is Some);
                    assert(alpha.leaves()[alpha.leaves().len() - 1].value() is Some);
                }
                lemma_no_point_error(psi);
            }
        }
        let r = prove::<Okamoto>(witness, instance);
        proof {
            if r is Ok {
                let alpha = choose|alpha: OkamotoWitness| #![trigger prove_result::<Okamoto>(*witness, *instance, alpha)]
                    fresh_blinding(alpha) && prove_result::<Okamoto>(*witness, *instance, alpha)
                        == Ok::<Seq<u8>, SigmaProofError>(r->Ok_0@)
                        && r->Ok_0@.len() == 32 * (Okamoto::spec_psi(alpha, *instance).len()
                        + OkamotoWitness::arity());
                assert(Okamoto::spec_psi(alpha, *instance).len() + OkamotoWitness::arity() == 3);
            }
        }
        r
    }

    /// Proves knowledge of `witness` for `instance` with the given blinding.
    pub fn prove_with_blinding(
        witness: &OkamotoWitness,
        instance: &OkamotoInstance,
        blinding: &OkamotoWitness,
    ) -> (r: SigmaProofResult<Vec<u8>>)
        ensures
            r matches Ok(b) ==> prove_result::<Okamoto>(*witness, *instance, *blinding) == Ok::<
                Seq<u8>,
                SigmaProofError,
            >(b@),
            r matches Err(e) ==> prove_result::<Okamoto>(*witness, *instance, *blinding) == Err::<
                Seq<u8>,
                SigmaProofError,
            >(e),
    {
        prove_with_blinding::<Okamoto>(witness, instance, blinding)
    }

    /// Checks `proof` against `instance`.
    pub fn verify(instance: &OkamotoInstance, proof: &[u8]) -> (r: Result<(), SigmaProofError>)
        ensures
            r == verify_result::<Okamoto>(*instance, proof@),
    {
        verify::<Okamoto>(instance, proof)
    }

    /// The Markdown and LaTeX description of the protocol.
    pub fn spec() -> (r: String)
        ensures
            r@ == spec_document::<Okamoto>(),
    {
        spec::<Okamoto>()
    }
}

} // verus!
