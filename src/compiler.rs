//! The generic Sigma-protocol prover and verifier, driven by a pair of
//! homomorphisms `psi` (witness and instance to points) and `f` (instance to
//! points).
use crate::absorb::{
    all_scalars_bound, evaluate_points, evaluate_scalars, evaluates_to, first_point_error,
    points_evaluate_to, witness_count_error, SymInstance, SymWitness,
};
use crate::equations::{SymPoint, SymScalar};
use crate::errors::{SigmaProofError, SigmaProofResult};
use crate::group::{
    field_add, field_mul, group_order, le_value, lemma_field_ops_reduced, lemma_scalar_bytes_value,
    ristretto_decodes, ristretto_multiple, ristretto_sum, scalar_bytes, scalar_from_encoding, Point,
    Scalar,
};
use crate::transcript::{
    block_at, blocks_canonical, blocks_decode, challenge_value, concat_blocks, frame, frames,
    lemma_concat_blocks, lemma_frames_push, point_encodings, scalar_encodings, scalar_values,
    ProofTranscript,
};
use vstd::prelude::*;

verus! {

/// The label under which commitments are absorbed.
pub open spec fn commitment_label() -> Seq<u8> {
    seq![0x72u8]
}

/// The label under which the challenge is drawn.
pub open spec fn challenge_label() -> Seq<u8> {
    seq![0x65u8]
}

/// The label under which responses are absorbed.
pub open spec fn response_label() -> Seq<u8> {
    seq![0x7au8]
}

/// The encodings the point trees evaluate to.
pub open spec fn point_values(leaves: Seq<SymPoint>) -> Seq<Seq<u8>> {
    leaves.map_values(|p: SymPoint| p.value()->Ok_0)
}

/// The field elements the scalar trees evaluate to.
pub open spec fn scalar_leaf_values(leaves: Seq<SymScalar>) -> Seq<nat> {
    leaves.map_values(|s: SymScalar| s.value().unwrap())
}

/// The log both roles hold once the protocol label and the instance are
/// absorbed: its points, then its scalars, under the empty label.
pub open spec fn instance_log<I: SymInstance>(label: Seq<u8>, x: I) -> Seq<u8> {
    frame(label, Seq::empty()) + frames(Seq::empty(), point_values(x.point_leaves())) + frames(
        Seq::empty(),
        scalar_encodings(scalar_leaf_values(x.scalar_leaves())),
    )
}

/// The challenge drawn after the instance and the commitments `a`.
pub open spec fn challenge_for<I: SymInstance>(label: Seq<u8>, x: I, a: Seq<Seq<u8>>) -> nat {
    challenge_value(
        instance_log(label, x) + frames(commitment_label(), a) + frame(
            challenge_label(),
            Seq::empty(),
        ),
    )
}

/// The responses `z_i = w_i * e + alpha_i`.
pub open spec fn responses(w: Seq<nat>, alpha: Seq<nat>, e: nat) -> Seq<nat> {
    Seq::new(w.len(), |i: int| field_add(field_mul(w[i], e), alpha[i]))
}

/// The `n` 32-byte blocks of `bytes` from `start` on.
pub open spec fn wire_blocks(bytes: Seq<u8>, start: int, n: nat) -> Seq<Seq<u8>> {
    Seq::new(n, |k: int| block_at(bytes, start, k))
}

/// The outcome of checking `psi[k] == a[k] + e * x[k]` for `k` from `from` on.
pub open spec fn equations_from(
    psi: Seq<SymPoint>,
    a: Seq<Seq<u8>>,
    e: nat,
    x: Seq<Seq<u8>>,
    from: int,
) -> Result<(), SigmaProofError>
    decreases psi.len() - from,
{
    if from < 0 || from >= psi.len() {
        Ok(())
    } else {
        match psi[from].value() {
            Err(err) => Err(err),
            Ok(v) => if v == ristretto_sum(a[from], ristretto_multiple(e, x[from])) {
                equations_from(psi, a, e, x, from + 1)
            } else {
                Err(SigmaProofError::EquationCheckFailed)
            },
        }
    }
}

/// The outcome of the verification equations: the arities must agree, then
/// each `psi[k]` must evaluate to `a[k] + e * x[k]`, the first failure
/// deciding the error.
pub open spec fn check_result(psi: Seq<SymPoint>, a: Seq<Seq<u8>>, e: nat, x: Seq<Seq<u8>>) -> Result<
    (),
    SigmaProofError,
> {
    if psi.len() != x.len() || a.len() != x.len() {
        Err(SigmaProofError::PsiOutputLengthMismatch)
    } else {
        equations_from(psi, a, e, x, 0)
    }
}

/// Where `psi` and `f` disagree on how many points they return, the
/// equations are not checked at all: the outcome is `PsiOutputLengthMismatch`.
pub proof fn lemma_mismatched_arities(
    psi: Seq<SymPoint>,
    a: Seq<Seq<u8>>,
    e: nat,
    x: Seq<Seq<u8>>,
)
    requires
        psi.len() != x.len(),
    ensures
        check_result(psi, a, e, x) == Err::<(), SigmaProofError>(
            SigmaProofError::PsiOutputLengthMismatch,
        ),
{
}

/// What proving `witness` for `instance` with the blinding witness `alpha`
/// yields: the encoded commitments `psi(alpha, X)` followed by the encoded
/// responses, or the first error met.
pub open spec fn prove_result<P: SigmaProof>(
    witness: P::WITNESS,
    instance: P::INSTANCE,
    alpha: P::WITNESS,
) -> Result<Seq<u8>, SigmaProofError> {
    let commitments = P::spec_psi(alpha, instance);
    if first_point_error(instance.point_leaves()) is Some {
        Err(first_point_error(instance.point_leaves()).unwrap())
    } else if !all_scalars_bound(instance.scalar_leaves()) {
        Err(SigmaProofError::UninstantiatedScalar)
    } else if first_point_error(commitments) is Some {
        Err(first_point_error(commitments).unwrap())
    } else if !all_scalars_bound(witness.leaves()) || !all_scalars_bound(alpha.leaves()) {
        Err(SigmaProofError::UninstantiatedScalar)
    } else {
        let a = point_values(commitments);
        let e = challenge_for(P::spec_label(), instance, a);
        let z = responses(scalar_leaf_values(witness.leaves()), scalar_leaf_values(alpha.leaves()), e);
        Ok(concat_blocks(a) + concat_blocks(scalar_encodings(z)))
    }
}

/// What verifying `proof` for `instance` yields: the proof is read as
/// `|f(X)|` commitments and then responses, the challenge is re-derived from
/// the instance and commitments, and the equations are checked.
pub open spec fn verify_result<P: SigmaProof>(instance: P::INSTANCE, proof: Seq<u8>) -> Result<
    (),
    SigmaProofError,
> {
    let image = P::spec_f(instance);
    if proof.len() % 32 != 0 {
        Err(SigmaProofError::TranscriptFinalizationFailed)
    } else if first_point_error(image) is Some {
        Err(first_point_error(image).unwrap())
    } else if first_point_error(instance.point_leaves()) is Some {
        Err(first_point_error(instance.point_leaves()).unwrap())
    } else if !all_scalars_bound(instance.scalar_leaves()) {
        Err(SigmaProofError::UninstantiatedScalar)
    } else {
        let x = point_values(image);
        let n = x.len();
        if !(32 * n <= proof.len() && blocks_decode(proof, 0, n as int)) {
            Err(SigmaProofError::TranscriptError)
        } else {
            let a = wire_blocks(proof, 0, n);
            let e = challenge_for(P::spec_label(), instance, a);
            let m = ((proof.len() - 32 * n) / 32) as nat;
            if !blocks_canonical(proof, (32 * n) as int, m as int) {
                Err(SigmaProofError::TranscriptError)
            } else if m != P::WITNESS::arity() {
                Err(witness_count_error(P::WITNESS::arity(), m).unwrap())
            } else {
                let z = Seq::new(m, |k: int| scalar_from_encoding(block_at(proof, (32 * n) as int, k)));
                check_result(P::spec_psi(P::WITNESS::spec_from_values(z), instance), a, e, x)
            }
        }
    }
}

/// A Sigma protocol: the relation `psi(w, X) = f(X)` between a witness
/// record and an instance record, under a fixed label.
pub trait SigmaProof: Sized {
    type WITNESS: SymWitness;

    type INSTANCE: SymInstance;

    /// The protocol label.
    spec fn spec_label() -> Seq<u8>;

    /// The image `f(X)` as trees.
    spec fn spec_f(instance: Self::INSTANCE) -> Seq<SymPoint>;

    /// The homomorphism `psi(w, X)` as trees.
    spec fn spec_psi(witness: Self::WITNESS, instance: Self::INSTANCE) -> Seq<SymPoint>;

    /// The protocol label, injected when a transcript starts.
    fn label() -> (r: &'static [u8])
        ensures
            r@ == Self::spec_label(),
    ;

    fn f(instance: &Self::INSTANCE) -> (r: Vec<SymPoint>)
        ensures
            r@ == Self::spec_f(*instance),
    ;

    fn psi(witness: &Self::WITNESS, instance: &Self::INSTANCE) -> (r: Vec<SymPoint>)
        ensures
            r@ == Self::spec_psi(*witness, *instance),
    ;
}

/// The encodings of evaluated point trees are what the trees evaluate to.
proof fn lemma_point_values(leaves: Seq<SymPoint>, v: Seq<Point>)
    requires
        points_evaluate_to(leaves, v),
    ensures
        point_encodings(v) == point_values(leaves),
{
    assert(point_encodings(v) =~= point_values(leaves));
}

/// The values of evaluated scalar trees are what the trees evaluate to.
proof fn lemma_scalar_values(leaves: Seq<SymScalar>, v: Seq<Scalar>)
    requires
        evaluates_to(leaves, v),
    ensures
        scalar_values(v) == scalar_leaf_values(leaves),
{
    assert(scalar_values(v) =~= scalar_leaf_values(leaves));
}

/// Absorbs points on both sides.
fn absorb_points(t: &mut ProofTranscript, label: &[u8], pts: &Vec<Point>)
    ensures
        final(t).log() == old(t).log() + frames(label@, point_encodings(pts@)),
        final(t).buffer() == old(t).buffer(),
        final(t).cursor() == old(t).cursor(),
        final(t).wf() == old(t).wf(),
{
    let mut i: usize = 0;
    assert(point_encodings(pts@.subrange(0, 0)) =~= Seq::<Seq<u8>>::empty());
    while i < pts.len()
        invariant
            0 <= i <= pts@.len(),
            t.log() == old(t).log() + frames(label@, point_encodings(pts@.subrange(0, i as int))),
            t.buffer() == old(t).buffer(),
            t.cursor() == old(t).cursor(),
            t.wf() == old(t).wf(),
        decreases pts@.len() - i,
    {
        t.common_absorb_point(label, &pts[i]);
        proof {
            lemma_frames_push(
                label@,
                point_encodings(pts@.subrange(0, i as int)),
                pts@[i as int]@,
            );
            assert(point_encodings(pts@.subrange(0, i + 1)) =~= point_encodings(
                pts@.subrange(0, i as int),
            ).push(pts@[i as int]@));
        }
        i = i + 1;
    }
    assert(pts@.subrange(0, pts@.len() as int) =~= pts@);
}

/// Absorbs scalars on both sides.
fn absorb_scalars(t: &mut ProofTranscript, label: &[u8], scs: &Vec<Scalar>)
    ensures
        final(t).log() == old(t).log() + frames(label@, scalar_encodings(scalar_values(scs@))),
        final(t).buffer() == old(t).buffer(),
        final(t).cursor() == old(t).cursor(),
        final(t).wf() == old(t).wf(),
{
    let mut i: usize = 0;
    assert(scalar_encodings(scalar_values(scs@.subrange(0, 0))) =~= Seq::<Seq<u8>>::empty());
    while i < scs.len()
        invariant
            0 <= i <= scs@.len(),
            t.log() == old(t).log() + frames(
                label@,
                scalar_encodings(scalar_values(scs@.subrange(0, i as int))),
            ),
            t.buffer() == old(t).buffer(),
            t.cursor() == old(t).cursor(),
            t.wf() == old(t).wf(),
        decreases scs@.len() - i,
    {
        t.common_absorb_scalar(label, &scs[i]);
        proof {
            lemma_frames_push(
                label@,
                scalar_encodings(scalar_values(scs@.subrange(0, i as int))),
                scalar_bytes(scs@[i as int]@),
            );
            assert(scalar_encodings(scalar_values(scs@.subrange(0, i + 1))) =~= scalar_encodings(
                scalar_values(scs@.subrange(0, i as int)),
            ).push(scalar_bytes(scs@[i as int]@)));
        }
        i = i + 1;
    }
    assert(scs@.subrange(0, scs@.len() as int) =~= scs@);
}

/// Absorbs points and writes them to the wire.
fn send_points(t: &mut ProofTranscript, label: &[u8], pts: &Vec<Point>)
    ensures
        final(t).log() == old(t).log() + frames(label@, point_encodings(pts@)),
        final(t).buffer() == old(t).buffer() + concat_blocks(point_encodings(pts@)),
        final(t).cursor() == old(t).cursor(),
        old(t).wf() ==> final(t).wf(),
{
    let mut i: usize = 0;
    assert(point_encodings(pts@.subrange(0, 0)) =~= Seq::<Seq<u8>>::empty());
    while i < pts.len()
        invariant
            0 <= i <= pts@.len(),
            t.log() == old(t).log() + frames(label@, point_encodings(pts@.subrange(0, i as int))),
            t.buffer() == old(t).buffer() + concat_blocks(
                point_encodings(pts@.subrange(0, i as int)),
            ),
            t.cursor() == old(t).cursor(),
            old(t).wf() ==> t.wf(),
        decreases pts@.len() - i,
    {
        t.prover_absorb_point(label, &pts[i]);
        proof {
            let before = point_encodings(pts@.subrange(0, i as int));
            lemma_frames_push(label@, before, pts@[i as int]@);
            assert(point_encodings(pts@.subrange(0, i + 1)) =~= before.push(pts@[i as int]@));
            assert(before.push(pts@[i as int]@).drop_last() =~= before);
        }
        i = i + 1;
    }
    assert(pts@.subrange(0, pts@.len() as int) =~= pts@);
}

/// Absorbs scalars and writes them to the wire.
fn send_scalars(t: &mut ProofTranscript, label: &[u8], scs: &Vec<Scalar>)
    ensures
        final(t).log() == old(t).log() + frames(label@, scalar_encodings(scalar_values(scs@))),
        final(t).buffer() == old(t).buffer() + concat_blocks(scalar_encodings(scalar_values(scs@))),
        final(t).cursor() == old(t).cursor(),
        old(t).wf() ==> final(t).wf(),
{
    let mut i: usize = 0;
    assert(scalar_encodings(scalar_values(scs@.subrange(0, 0))) =~= Seq::<Seq<u8>>::empty());
    while i < scs.len()
        invariant
            0 <= i <= scs@.len(),
            t.log() == old(t).log() + frames(
                label@,
                scalar_encodings(scalar_values(scs@.subrange(0, i as int))),
            ),
            t.buffer() == old(t).buffer() + concat_blocks(
                scalar_encodings(scalar_values(scs@.subrange(0, i as int))),
            ),
            t.cursor() == old(t).cursor(),
            old(t).wf() ==> t.wf(),
        decreases scs@.len() - i,
    {
        t.prover_absorb_scalar(label, &scs[i]);
        proof {
            let before = scalar_encodings(scalar_values(scs@.subrange(0, i as int)));
            let b = scalar_bytes(scs@[i as int]@);
            lemma_frames_push(label@, before, b);
            assert(scalar_encodings(scalar_values(scs@.subrange(0, i + 1))) =~= before.push(b));
            assert(before.push(b).drop_last() =~= before);
        }
        i = i + 1;
    }
    assert(scs@.subrange(0, scs@.len() as int) =~= scs@);
}

/// The responses `w_i * e + alpha_i`, position by position.
pub fn compute_responses(w: &Vec<Scalar>, alpha: &Vec<Scalar>, e: &Scalar) -> (r: Vec<Scalar>)
    requires
        w@.len() == alpha@.len(),
    ensures
        scalar_values(r@) == responses(scalar_values(w@), scalar_values(alpha@), e@),
{
    let mut out: Vec<Scalar> = Vec::new();
    let mut i: usize = 0;
    while i < w.len()
        invariant
            0 <= i <= w@.len(),
            w@.len() == alpha@.len(),
            out@.len() == i,
            forall|j: int|
                0 <= j < i ==> (#[trigger] out@[j])@ == field_add(
                    field_mul(w@[j]@, e@),
                    alpha@[j]@,
                ),
        decreases w@.len() - i,
    {
        let z = w[i].mul(e).add(&alpha[i]);
        out.push(z);
        i = i + 1;
    }
    assert(scalar_values(out@) =~= responses(scalar_values(w@), scalar_values(alpha@), e@));
    out
}

/// Checks `psi[k] == a[k] + e * x[k]` for every `k`, after the arities.
pub fn check_equations(psi: &Vec<SymPoint>, a: &Vec<Point>, e: &Scalar, x: &Vec<Point>) -> (r: Result<
    (),
    SigmaProofError,
>)
    ensures
        r == check_result(psi@, point_encodings(a@), e@, point_encodings(x@)),
{
    if psi.len() != x.len() || a.len() != x.len() {
        return Err(SigmaProofError::PsiOutputLengthMismatch);
    }
    let ghost ae = point_encodings(a@);
    let ghost xe = point_encodings(x@);
    let mut k: usize = 0;
    while k < psi.len()
        invariant
            0 <= k <= psi@.len(),
            psi@.len() == x@.len(),
            a@.len() == x@.len(),
            ae == point_encodings(a@),
            xe == point_encodings(x@),
            equations_from(psi@, ae, e@, xe, 0) == equations_from(psi@, ae, e@, xe, k as int),
        decreases psi@.len() - k,
    {
        let rhs = a[k].add(&x[k].scale(e));
        match psi[k].evaluate() {
            Err(err) => {
                return Err(err);
            },
            Ok(lhs) => {
                if !lhs.equals(&rhs) {
                    return Err(SigmaProofError::EquationCheckFailed);
                }
            },
        }
        k = k + 1;
    }
    Ok(())
}

/// Proves knowledge of `witness` for `instance`, with the given blinding
/// witness in place of fresh randomness.
pub fn prove_with_blinding<P: SigmaProof>(
    witness: &P::WITNESS,
    instance: &P::INSTANCE,
    blinding: &P::WITNESS,
) -> (r: SigmaProofResult<Vec<u8>>)
    ensures
        r matches Ok(b) ==> prove_result::<P>(*witness, *instance, *blinding) == Ok::<
            Seq<u8>,
            SigmaProofError,
        >(b@),
        r matches Err(e) ==> prove_result::<P>(*witness, *instance, *blinding) == Err::<
            Seq<u8>,
            SigmaProofError,
        >(e),
        r matches Ok(b) ==> b@.len() == 32 * (P::spec_psi(*blinding, *instance).len()
            + P::WITNESS::arity()),
{
    let empty: [u8; 0] = [];
    let r_label: [u8; 1] = [0x72u8];
    let e_label: [u8; 1] = [0x65u8];
    let z_label: [u8; 1] = [0x7au8];
    assert(empty@ =~= Seq::<u8>::empty());
    assert(r_label@ =~= commitment_label());
    assert(e_label@ =~= challenge_label());
    assert(z_label@ =~= response_label());
    let mut transcript = ProofTranscript::new_prover(P::label());
    // absorb the instance, not f(instance)
    let pts = evaluate_points(&instance.points())?;
    absorb_points(&mut transcript, &empty, &pts);
    let scs = evaluate_scalars(&instance.scalars())?;
    absorb_scalars(&mut transcript, &empty, &scs);
    proof {
        lemma_point_values(instance.point_leaves(), pts@);
        lemma_scalar_values(instance.scalar_leaves(), scs@);
        assert(transcript.log() == instance_log(P::spec_label(), *instance));
    }
    // commitments
    let commitments = evaluate_points(&P::psi(blinding, instance))?;
    send_points(&mut transcript, &r_label, &commitments);
    proof {
        lemma_point_values(P::spec_psi(*blinding, *instance), commitments@);
    }
    // challenge
    let e = transcript.challenge(&e_label);
    // responses
    let w = witness.values()?;
    let alpha = blinding.values()?;
    let z = compute_responses(&w, &alpha, &e);
    send_scalars(&mut transcript, &z_label, &z);
    proof {
        lemma_scalar_values(witness.leaves(), w@);
        lemma_scalar_values(blinding.leaves(), alpha@);
        assert(concat_blocks(Seq::<Seq<u8>>::empty()) =~= Seq::<u8>::empty());
        let pe = point_encodings(commitments@);
        assert forall|k: int| 0 <= k < pe.len() implies (#[trigger] pe[k]).len() == 32 by {
            crate::group::lemma_point_len(commitments@[k]);
        }
        lemma_concat_blocks(pe);
        let ze = scalar_encodings(scalar_values(z@));
        assert forall|k: int| 0 <= k < ze.len() implies (#[trigger] ze[k]).len() == 32 by {}
        lemma_concat_blocks(ze);
    }
    Ok(transcript.finalize())
}

/// Checks `proof` against `instance`.
pub fn verify<P: SigmaProof>(instance: &P::INSTANCE, proof: &[u8]) -> (r: Result<(), SigmaProofError>)
    ensures
        r == verify_result::<P>(*instance, proof@),
{
    if proof.len() % 32 != 0 {
        return Err(SigmaProofError::TranscriptFinalizationFailed);
    }
    let empty: [u8; 0] = [];
    let r_label: [u8; 1] = [0x72u8];
    let e_label: [u8; 1] = [0x65u8];
    let z_label: [u8; 1] = [0x7au8];
    assert(empty@ =~= Seq::<u8>::empty());
    assert(r_label@ =~= commitment_label());
    assert(e_label@ =~= challenge_label());
    assert(z_label@ =~= response_label());
    let mut transcript = ProofTranscript::new_verifier(P::label(), proof);
    let image = evaluate_points(&P::f(instance))?;
    proof {
        lemma_point_values(P::spec_f(*instance), image@);
    }
    // absorb the instance, not f(instance)
    let pts = evaluate_points(&instance.points())?;
    absorb_points(&mut transcript, &empty, &pts);
    let scs = evaluate_scalars(&instance.scalars())?;
    absorb_scalars(&mut transcript, &empty, &scs);
    proof {
        lemma_point_values(instance.point_leaves(), pts@);
        lemma_scalar_values(instance.scalar_leaves(), scs@);
        assert(transcript.log() == instance_log(P::spec_label(), *instance));
    }
    let ghost n = image@.len();
    let commitments = match transcript.verifier_receive_points(&r_label, image.len()) {
        Some(c) => c,
        None => {
            return Err(SigmaProofError::TranscriptError);
        },
    };
    proof {
        assert(point_encodings(commitments@) =~= wire_blocks(proof@, 0, n));
    }
    let e = transcript.challenge(&e_label);
    proof {
        assert((proof@.len() - 32 * n) % 32 == 0) by (nonlinear_arith)
            requires
                proof@.len() % 32 == 0,
                32 * n <= proof@.len(),
        ;
    }
    let responses = match transcript.verifier_receives_all_scalars(&z_label) {
        Some(z) => z,
        None => {
            return Err(SigmaProofError::TranscriptError);
        },
    };
    let zw = P::WITNESS::from_values(responses.as_slice())?;
    proof {
        let m = ((proof@.len() - 32 * n) / 32) as nat;
        assert forall|k: int| 0 <= k < m implies #[trigger] responses@[k] == scalar_from_encoding(
            block_at(proof@, (32 * n) as int, k),
        ) by {
            crate::group::lemma_scalar_from_encoding(responses@[k]);
        }
        assert(responses@ =~= Seq::new(
            m,
            |k: int| scalar_from_encoding(block_at(proof@, (32 * n) as int, k)),
        ));
    }
    let psi = P::psi(&zw, instance);
    check_equations(&psi, &commitments, &e, &image)
}

/// Whether a blinding witness is what fresh randomness gives: the declared
/// number of leaves, each a constant.
pub open spec fn fresh_blinding<W: SymWitness>(alpha: W) -> bool {
    &&& alpha.leaves().len() == W::arity()
    &&& forall|i: int| 0 <= i < alpha.leaves().len() ==> #[trigger] alpha.leaves()[i] is Const
}

/// Whether the instance and the witness have no uninstantiated leaf.
pub open spec fn inputs_bound<P: SigmaProof>(witness: P::WITNESS, instance: P::INSTANCE) -> bool {
    &&& first_point_error(instance.point_leaves()) is None
    &&& all_scalars_bound(instance.scalar_leaves())
    &&& all_scalars_bound(witness.leaves())
}

/// Proves knowledge of `witness` for `instance`, blinding with fresh random
/// scalars: the proof is the one `prove_with_blinding` gives for some fresh
/// blinding witness. On bound inputs, where `psi` evaluates for every fresh
/// blinding, proving succeeds.
pub fn prove<P: SigmaProof>(witness: &P::WITNESS, instance: &P::INSTANCE) -> (r: SigmaProofResult<
    Vec<u8>,
>)
    ensures
        r matches Ok(b) ==> exists|alpha: P::WITNESS|
            #![trigger prove_result::<P>(*witness, *instance, alpha)]
            fresh_blinding(alpha) && prove_result::<P>(*witness, *instance, alpha) == Ok::<
                Seq<u8>,
                SigmaProofError,
            >(b@) && b@.len() == 32 * (P::spec_psi(alpha, *instance).len() + P::WITNESS::arity()),
        r matches Err(e) ==> exists|alpha: P::WITNESS|
            #![trigger prove_result::<P>(*witness, *instance, alpha)]
            fresh_blinding(alpha) && prove_result::<P>(*witness, *instance, alpha) == Err::<
                Seq<u8>,
                SigmaProofError,
            >(e),
        inputs_bound::<P>(*witness, *instance) && (forall|alpha: P::WITNESS|
            #![trigger fresh_blinding(alpha)]
            fresh_blinding(alpha) ==> first_point_error(P::spec_psi(alpha, *instance)) is None)
            ==> r is Ok,
{
    let blinding = P::WITNESS::rand();
    proof {
        assert(fresh_blinding(blinding));
        assert forall|i: int| 0 <= i < blinding.leaves().len() implies (
        #[trigger] blinding.leaves()[i]).value() is Some by {
            assert(blinding.leaves()[i] is Const);
        }
    }
    let r = prove_with_blinding::<P>(witness, instance, &blinding);
    r
}

/// The responses of an honest proof, as the verifier rebuilds them.
pub open spec fn response_scalars(z: Seq<nat>) -> Seq<Scalar> {
    Seq::new(z.len(), |k: int| scalar_from_encoding(scalar_bytes(z[k])))
}

/// Completeness, up to the group equation: the verifier reads an honest
/// proof back exactly, finding the prover's commitments `A = psi(alpha, X)`
/// and responses `z`, and re-derives the prover's challenge `e`; so the
/// proof is accepted exactly when `psi(z, X) = A + e * f(X)` holds, which
/// the homomorphism property of `psi` and `psi(w, X) = f(X)` give. The
/// commitments are encodings of group elements, as every evaluated point is.
pub proof fn lemma_completeness<P: SigmaProof>(
    witness: P::WITNESS,
    instance: P::INSTANCE,
    alpha: P::WITNESS,
)
    requires
        prove_result::<P>(witness, instance, alpha) is Ok,
        first_point_error(P::spec_f(instance)) is None,
        P::spec_f(instance).len() == P::spec_psi(alpha, instance).len(),
        forall|k: int|
            0 <= k < P::spec_psi(alpha, instance).len() ==> (#[trigger] point_values(
                P::spec_psi(alpha, instance),
            )[k]).len() == 32 && ristretto_decodes(point_values(P::spec_psi(alpha, instance))[k]),
    ensures
        ({
            let a = point_values(P::spec_psi(alpha, instance));
            let e = challenge_for(P::spec_label(), instance, a);
            let z = responses(
                scalar_leaf_values(witness.leaves()),
                scalar_leaf_values(alpha.leaves()),
                e,
            );
            let proof = prove_result::<P>(witness, instance, alpha)->Ok_0;
            let zw = P::WITNESS::spec_from_values(response_scalars(z));
            &&& verify_result::<P>(instance, proof) == check_result(
                P::spec_psi(zw, instance),
                a,
                e,
                point_values(P::spec_f(instance)),
            )
            &&& (P::spec_psi(zw, instance).len() == a.len() && forall|k: int|
                0 <= k < a.len() ==> (#[trigger] P::spec_psi(zw, instance)[k]).value() == Ok::<
                    Seq<u8>,
                    SigmaProofError,
                >(ristretto_sum(a[k], ristretto_multiple(e, point_values(P::spec_f(instance))[k]))))
                ==> verify_result::<P>(instance, proof) == Ok::<(), SigmaProofError>(())
        }),
{
    let a = point_values(P::spec_psi(alpha, instance));
    let e = challenge_for(P::spec_label(), instance, a);
    let wv = scalar_leaf_values(witness.leaves());
    let av = scalar_leaf_values(alpha.leaves());
    let z = responses(wv, av, e);
    let zenc = scalar_encodings(z);
    let proof = concat_blocks(a) + concat_blocks(zenc);
    let n = a.len();
    witness.lemma_arity();
    alpha.lemma_arity();
    assert forall|k: int| 0 <= k < z.len() implies (#[trigger] zenc[k]).len() == 32 && le_value(
        zenc[k],
    ) == z[k] && z[k] < group_order() by {
        lemma_field_ops_reduced(crate::group::field_mul(wv[k], e), av[k]);
        lemma_scalar_bytes_value(z[k]);
    }
    lemma_concat_blocks(a);
    lemma_concat_blocks(zenc);
    assert(proof.len() == 32 * n + 32 * z.len());
    assert(proof.len() % 32 == 0) by (nonlinear_arith)
        requires
            proof.len() == 32 * n + 32 * z.len(),
    ;
    assert forall|k: int| 0 <= k < n implies #[trigger] block_at(proof, 0, k) == a[k] by {
        assert(block_at(proof, 0, k) =~= block_at(concat_blocks(a), 0, k));
    }
    assert forall|k: int| 0 <= k < z.len() implies #[trigger] block_at(proof, (32 * n) as int, k)
        == zenc[k] by {
        assert(block_at(proof, (32 * n) as int, k) =~= block_at(concat_blocks(zenc), 0, k));
    }
    assert(wire_blocks(proof, 0, n) =~= a);
    assert(blocks_decode(proof, 0, n as int));
    let m = ((proof.len() - 32 * n) / 32) as nat;
    assert(m == z.len());
    assert(blocks_canonical(proof, (32 * n) as int, m as int));
    assert(Seq::new(m, |k: int| scalar_from_encoding(block_at(proof, (32 * n) as int, k)))
        =~= response_scalars(z));
    let zw = P::WITNESS::spec_from_values(response_scalars(z));
    let x = point_values(P::spec_f(instance));
    let psi = P::spec_psi(zw, instance);
    if psi.len() == a.len() && forall|k: int|
        0 <= k < a.len() ==> (#[trigger] psi[k]).value() == Ok::<Seq<u8>, SigmaProofError>(
            ristretto_sum(a[k], ristretto_multiple(e, x[k])),
        ) {
        lemma_equations_hold(psi, a, e, x, 0);
    }
}

/// Where every equation from `from` on holds, checking from there succeeds.
proof fn lemma_equations_hold(psi: Seq<SymPoint>, a: Seq<Seq<u8>>, e: nat, x: Seq<Seq<u8>>, from: int)
    requires
        0 <= from,
        forall|k: int|
            from <= k < psi.len() ==> (#[trigger] psi[k]).value() == Ok::<Seq<u8>, SigmaProofError>(
                ristretto_sum(a[k], ristretto_multiple(e, x[k])),
            ),
    ensures
        equations_from(psi, a, e, x, from) == Ok::<(), SigmaProofError>(()),
    decreases psi.len() - from,
{
    if from < psi.len() {
        lemma_equations_hold(psi, a, e, x, from + 1);
    }
}

} // verus!
