//! Zero check: knowledge of `s` with `commitment = s * G` and
//! `handle = s * pubkey`, a common discrete logarithm across two bases.
use crate::absorb::{
    bound_vars, check_instance_count, check_witness_count, point_consts, scalar_consts,
    sealed_instance, sealed_witness, SymInstance, SymWitness,
};
use crate::absorb::{first_point_error, lemma_no_point_error};
use crate::compiler::{
    fresh_blinding, inputs_bound, prove, prove_result, prove_with_blinding, verify, verify_result,
    SigmaProof,
};
use crate::equations::{SymPoint, SymScalar};
use crate::errors::{SigmaProofError, SigmaProofResult};
use crate::group::{Point, Scalar};
use crate::render::{spec, spec_document};
use crate::sigmas::{base_g, spec_g};
use vstd::prelude::*;
use vstd::string::StringSliceAdditionalSpecFns;

verus! {

pub struct ZeroCheckProtocol;

#[derive(Clone, Debug)]
pub struct ZeroCheckWitness {
    pub secret_key: SymScalar,
}

#[derive(Clone, Debug)]
pub struct ZeroCheckInstance {
    pub pubkey: SymPoint,
    pub commitment: SymPoint,
    pub handle: SymPoint,
}

impl sealed_witness::Sealed for ZeroCheckWitness {}

impl sealed_instance::Sealed for ZeroCheckInstance {}

impl SymWitness for ZeroCheckWitness {
    open spec fn arity() -> nat {
        1
    }

    open spec fn leaves(&self) -> Seq<SymScalar> {
        seq![self.secret_key]
    }

    open spec fn spec_from_values(values: Seq<Scalar>) -> ZeroCheckWitness {
        ZeroCheckWitness { secret_key: SymScalar::Var(Some(values[0])) }
    }

    open spec fn var_names() -> Seq<Seq<char>> {
        seq!["secret_key"@]
    }

    proof fn lemma_arity(&self) {
    }

    proof fn lemma_from_values(values: Seq<Scalar>) {
        assert(bound_vars(values) =~= seq![SymScalar::Var(Some(values[0]))]);
    }

    fn rand() -> (r: ZeroCheckWitness) {
        ZeroCheckWitness { secret_key: SymScalar::Const(Scalar::random()) }
    }

    fn values(&self) -> (r: SigmaProofResult<Vec<Scalar>>) {
        let leaves = vec![self.secret_key.clone()];
        assert(leaves@ =~= self.leaves());
        crate::absorb::evaluate_scalars(&leaves)
    }

    fn from_values(scalars: &[Scalar]) -> (r: SigmaProofResult<ZeroCheckWitness>) {
        check_witness_count(1, scalars.len())?;
        Ok(ZeroCheckWitness { secret_key: SymScalar::Var(Some(scalars[0])) })
    }

    fn num_scalars() -> (n: usize) {
        1
    }

    fn get_var_name(index: usize) -> (r: &'static str) {
        if index == 0 {
            proof {
                reveal_strlit("secret_key");
            }
            "secret_key"
        } else {
            "unknown"
        }
    }
}

impl SymInstance for ZeroCheckInstance {
    open spec fn scalar_arity() -> nat {
        0
    }

    open spec fn point_arity() -> nat {
        3
    }

    open spec fn scalar_leaves(&self) -> Seq<SymScalar> {
        seq![]
    }

    open spec fn point_leaves(&self) -> Seq<SymPoint> {
        seq![self.pubkey, self.commitment, self.handle]
    }

    open spec fn spec_from_values(scalars: Seq<Scalar>, points: Seq<Point>) -> ZeroCheckInstance {
        ZeroCheckInstance { pubkey: SymPoint::Const(points[0]), commitment: SymPoint::Const(points[1]), handle: SymPoint::Const(points[2]) }
    }

    open spec fn field_names() -> Seq<Seq<char>> {
        seq!["pubkey"@, "commitment"@, "handle"@]
    }

    proof fn lemma_arity(&self) {
    }

    proof fn lemma_from_values(scalars: Seq<Scalar>, points: Seq<Point>) {
        assert(scalar_consts(scalars) =~= seq![]);
        assert(point_consts(points) =~= seq![SymPoint::Const(points[0]), SymPoint::Const(points[1]), SymPoint::Const(points[2])]);
    }

    fn num_scalars() -> (n: usize) {
        0
    }

    fn num_points() -> (n: usize) {
        3
    }

    fn from_values(scalars: &[Scalar], points: &[Point]) -> (r: SigmaProofResult<ZeroCheckInstance>) {
        check_instance_count(0, 3, scalars.len(), points.len())?;
        Ok(ZeroCheckInstance { pubkey: SymPoint::Const(points[0]), commitment: SymPoint::Const(points[1]), handle: SymPoint::Const(points[2]) })
    }

    fn get_field_names() -> (r: Vec<&'static str>) {
        proof {
            reveal_strlit("pubkey");
            reveal_strlit("commitment");
            reveal_strlit("handle");
        }
        vec!["pubkey", "commitment", "handle"]
    }

    fn points(&self) -> (r: Vec<SymPoint>) {
        let r = vec![self.pubkey.clone(), self.commitment.clone(), self.handle.clone()];
        assert(r@ =~= self.point_leaves());
        r
    }

    fn scalars(&self) -> (r: Vec<SymScalar>) {
        Vec::new()
    }
}

impl SigmaProof for ZeroCheckProtocol {
    type WITNESS = ZeroCheckWitness;

    type INSTANCE = ZeroCheckInstance;

    open spec fn spec_label() -> Seq<u8> {
        "zero-check-protocol".spec_bytes()
    }

    open spec fn spec_f(instance: ZeroCheckInstance) -> Seq<SymPoint> {
        seq![instance.commitment, instance.handle]
    }

    open spec fn spec_psi(witness: ZeroCheckWitness, instance: ZeroCheckInstance) -> Seq<SymPoint> {
        seq![
            SymPoint::Scale(Box::new(witness.secret_key), Box::new(spec_g())),
            SymPoint::Scale(Box::new(witness.secret_key), Box::new(instance.pubkey)),
        ]
    }

    fn label() -> (r: &'static [u8]) {
        "zero-check-protocol".as_bytes()
    }

    fn f(instance: &ZeroCheckInstance) -> (r: Vec<SymPoint>) {
        let r = vec![instance.commitment.clone(), instance.handle.clone()];
        assert(r@ =~= seq![instance.commitment, instance.handle]);
        r
    }

    fn psi(witness: &ZeroCheckWitness, instance: &ZeroCheckInstance) -> (r: Vec<SymPoint>) {
        let r = vec![
            witness.secret_key.clone() * base_g(),
            witness.secret_key.clone() * instance.pubkey.clone(),
        ];
        assert(r@ =~= Self::spec_psi(*witness, *instance));
        r
    }
}

impl ZeroCheckProtocol {
    /// Proves knowledge of `witness` for `instance` with fresh randomness:
    /// on bound inputs it succeeds, with a proof of 96 bytes.
    pub fn prove(witness: &ZeroCheckWitness, instance: &ZeroCheckInstance) -> (r: SigmaProofResult<Vec<u8>>)
        ensures
            r matches Ok(b) ==> exists|alpha: ZeroCheckWitness|
                #![trigger prove_result::<ZeroCheckProtocol>(*witness, *instance, alpha)]
                fresh_blinding(alpha) && prove_result::<ZeroCheckProtocol>(*witness, *instance, alpha)
                    == Ok::<Seq<u8>, SigmaProofError>(b@),
            r matches Err(e) ==> exists|alpha: ZeroCheckWitness|
                #![trigger prove_result::<ZeroCheckProtocol>(*witness, *instance, alpha)]
                fresh_blinding(alpha) && prove_result::<ZeroCheckProtocol>(*witness, *instance, alpha)
                    == Err::<Seq<u8>, SigmaProofError>(e),
            inputs_bound::<ZeroCheckProtocol>(*witness, *instance) ==> r is Ok,
            r matches Ok(b) ==> b@.len() == 96,
    {
        proof {
            reveal_with_fuel(SymPoint::value, 3);
            if inputs_bound::<ZeroCheckProtocol>(*witness, *instance) {
                lemma_no_point_error(instance.point_leaves());
                assert(instance.point_leaves()[0].value() is Ok);
                assert forall|alpha: ZeroCheckWitness| #![trigger fresh_blinding(alpha)] fresh_blinding(alpha)
                    implies first_point_error(ZeroCheckProtocol::spec_psi(alpha, *instance)) is None by {
                    assert forall|i: int| 0 <= i < alpha.leaves().len() implies (
                    #[trigger] alpha.leaves()[i]).value() is Some by {
                        assert(alpha.leaves()[i] is Const);
                    }
                    let psi = ZeroCheckProtocol::spec_psi(alpha, *instance);
                    assert forall|k: int| 0 <= k < psi.len() implies (#[trigger] psi[k]).value() is Ok by {
                        assert(alpha.leaves()[0].value() is Some);
                        assert(alpha.leaves()[alpha.leaves().len() - 1].value() is Some);
                    }
                    lemma_no_point_error(psi);
                }
            }
        }
        let r = prove::<ZeroCheckProtocol>(witness, instance);
        proof {
            if r is Ok {
                let alpha = choose|alpha: ZeroCheckWitness| #![trigger prove_result::<ZeroCheckProtocol>(*witness, *instance, alpha)]
                    fresh_blinding(alpha) && prove_result::<ZeroCheckProtocol>(*witness, *instance, alpha)
                        == Ok::<Seq<u8>, SigmaProofError>(r->Ok_0@)
                        && r->Ok_0@.len() == 32 * (ZeroCheckProtocol::spec_psi(alpha, *instance).len()
                        + ZeroCheckWitness::arity());
                assert(ZeroCheckProtocol::spec_psi(alpha, *instance).len() + ZeroCheckWitness::arity() == 3);
            }
        }
        r
    }

    /// Proves knowledge of `witness` for `instance` with the given blinding.
    pub fn prove_with_blinding(
        witness: &ZeroCheckWitness,
        instance: &ZeroCheckInstance,
        blinding: &ZeroCheckWitness,
    ) -> (r: SigmaProofResult<Vec<u8>>)
        ensures
            r matches Ok(b) ==> prove_result::<ZeroCheckProtocol>(*witness, *instance, *blinding) == Ok::<
                Seq<u8>,
                SigmaProofError,
            >(b@),
            r matches Err(e) ==> prove_result::<ZeroCheckProtocol>(*witness, *instance, *blinding) == Err::<
                Seq<u8>,
                SigmaProofError,
            >(e),
    {
        prove_with_blinding::<ZeroCheckProtocol>(witness, instance, blinding)
    }

    /// Checks `proof` against `instance`.
    pub fn verify(instance: &ZeroCheckInstance, proof: &[u8]) -> (r: Result<(), SigmaProofError>)
        ensures
            r == verify_result::<ZeroCheckProtocol>(*instance, proof@),
    {
        verify::<ZeroCheckProtocol>(instance, proof)
    }

    /// The Markdown and LaTeX description of the protocol.
    pub fn spec() -> (r: String)
        ensures
            r@ == spec_document::<ZeroCheckProtocol>(),
    {
        spec::<ZeroCheckProtocol>()
    }
}

} // verus!
