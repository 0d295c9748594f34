//! Structural reflection: witness and instance records seen as flat sequences
//! of scalar and point leaves, in declaration order.
use crate::equations::{SymPoint, SymScalar};
use crate::errors::{SigmaProofError, SigmaProofResult};
use crate::group::{Point, Scalar};
use vstd::prelude::*;

pub(crate) mod sealed_instance;
pub(crate) mod sealed_witness;

verus! {

/// Whether every scalar tree evaluates.
pub open spec fn all_scalars_bound(leaves: Seq<SymScalar>) -> bool {
    forall|i: int| 0 <= i < leaves.len() ==> (#[trigger] leaves[i]).value() is Some
}

/// Whether `values` holds, one for one, what the trees evaluate to.
pub open spec fn evaluates_to(leaves: Seq<SymScalar>, values: Seq<Scalar>) -> bool {
    &&& values.len() == leaves.len()
    &&& forall|i: int| 0 <= i < leaves.len() ==> (#[trigger] leaves[i]).value() == Some(values[i]@)
}

/// Whether `values` holds, one for one, the encodings the point trees evaluate to.
pub open spec fn points_evaluate_to(leaves: Seq<SymPoint>, values: Seq<Point>) -> bool {
    &&& values.len() == leaves.len()
    &&& forall|i: int|
        0 <= i < leaves.len() ==> (#[trigger] leaves[i]).value() == Ok::<Seq<u8>, SigmaProofError>(
            values[i]@,
        )
}

/// The error of the first point tree, from the left, that fails to evaluate.
pub open spec fn first_point_error(leaves: Seq<SymPoint>) -> Option<SigmaProofError>
    decreases leaves.len(),
{
    if leaves.len() == 0 {
        None
    } else {
        match leaves[0].value() {
            Err(e) => Some(e),
            Ok(_) => first_point_error(leaves.drop_first()),
        }
    }
}

/// No point tree fails exactly when every one of them evaluates.
pub proof fn lemma_no_point_error(leaves: Seq<SymPoint>)
    ensures
        first_point_error(leaves) is None <==> forall|k: int|
            0 <= k < leaves.len() ==> (#[trigger] leaves[k]).value() is Ok,
    decreases leaves.len(),
{
    if leaves.len() > 0 {
        lemma_no_point_error(leaves.drop_first());
        if first_point_error(leaves) is None {
            assert forall|k: int| 0 <= k < leaves.len() implies (#[trigger] leaves[k]).value() is Ok by {
                if k > 0 {
                    assert(leaves[k] == leaves.drop_first()[k - 1]);
                }
            }
        }
        if forall|k: int| 0 <= k < leaves.len() ==> (#[trigger] leaves[k]).value() is Ok {
            assert(leaves[0].value() is Ok);
            assert forall|k: int| 0 <= k < leaves.drop_first().len() implies (
            #[trigger] leaves.drop_first()[k]).value() is Ok by {
                assert(leaves.drop_first()[k] == leaves[k + 1]);
            }
        }
    }
}

/// Instantiated variables holding the given values, one for one.
pub open spec fn bound_vars(values: Seq<Scalar>) -> Seq<SymScalar> {
    values.map_values(|s: Scalar| SymScalar::Var(Some(s)))
}

/// Scalar constants holding the given values, one for one.
pub open spec fn scalar_consts(values: Seq<Scalar>) -> Seq<SymScalar> {
    values.map_values(|s: Scalar| SymScalar::Const(s))
}

/// Point constants holding the given values, one for one.
pub open spec fn point_consts(values: Seq<Point>) -> Seq<SymPoint> {
    values.map_values(|p: Point| SymPoint::Const(p))
}

/// The error for `actual` scalars where a witness declares `expected`.
pub open spec fn witness_count_error(expected: nat, actual: nat) -> Option<SigmaProofError> {
    if actual < expected {
        Some(SigmaProofError::InsufficientScalars)
    } else if actual > expected {
        Some(SigmaProofError::TooManyScalars { expected: expected as usize, actual: actual as usize })
    } else {
        None
    }
}

/// The error for `n_scalars` scalars and `n_points` points where an instance
/// declares `expected_scalars` and `expected_points`.
pub open spec fn instance_count_error(
    expected_scalars: nat,
    expected_points: nat,
    n_scalars: nat,
    n_points: nat,
) -> Option<SigmaProofError> {
    if n_scalars < expected_scalars {
        Some(SigmaProofError::InsufficientScalars)
    } else if n_points < expected_points {
        Some(SigmaProofError::InsufficientPoints)
    } else if n_scalars > expected_scalars || n_points > expected_points {
        Some(
            SigmaProofError::TooManyScalars {
                expected: expected_scalars as usize,
                actual: n_scalars as usize,
            },
        )
    } else {
        None
    }
}

/// A record whose leaves are all scalars: the secret side of a relation.
pub trait SymWitness: Sized + sealed_witness::Sealed {
    /// The number of scalar leaves.
    spec fn arity() -> nat;

    /// The scalar leaves, in declaration order.
    spec fn leaves(&self) -> Seq<SymScalar>;

    /// The record whose leaves are variables bound to `values`.
    spec fn spec_from_values(values: Seq<Scalar>) -> Self;

    /// The declared name of each leaf.
    spec fn var_names() -> Seq<Seq<char>>;

    proof fn lemma_arity(&self)
        ensures
            self.leaves().len() == Self::arity(),
            Self::var_names().len() == Self::arity(),
    ;

    proof fn lemma_from_values(values: Seq<Scalar>)
        requires
            values.len() == Self::arity(),
        ensures
            Self::spec_from_values(values).leaves() == bound_vars(values),
    ;

    /// A record whose every leaf is a fresh random constant.
    fn rand() -> (r: Self)
        ensures
            r.leaves().len() == Self::arity(),
            forall|i: int| 0 <= i < r.leaves().len() ==> #[trigger] r.leaves()[i] is Const,
    ;

    /// The evaluated leaves, in declaration order.
    fn values(&self) -> (r: SigmaProofResult<Vec<Scalar>>)
        ensures
            r is Ok == all_scalars_bound(self.leaves()),
            r matches Ok(v) ==> evaluates_to(self.leaves(), v@) && v@.len() == Self::arity(),
            r matches Err(e) ==> e is UninstantiatedScalar,
    ;

    /// The record whose leaves are variables bound to `scalars`, which must
    /// hold exactly `num_scalars()` values.
    fn from_values(scalars: &[Scalar]) -> (r: SigmaProofResult<Self>)
        ensures
            r is Ok == (scalars@.len() == Self::arity()),
            r matches Ok(w) ==> w == Self::spec_from_values(scalars@),
            r matches Err(e) ==> witness_count_error(Self::arity(), scalars@.len()) == Some(e),
    ;

    /// The number of scalar leaves.
    fn num_scalars() -> (n: usize)
        ensures
            n == Self::arity(),
    ;

    /// The declared name of the leaf at `index`, or "unknown".
    fn get_var_name(index: usize) -> (r: &'static str)
        ensures
            index < Self::arity() ==> r@ == Self::var_names()[index as int],
    ;
}

/// A record of scalar and point leaves: the public side of a relation.
pub trait SymInstance: Sized + sealed_instance::Sealed {
    /// The number of scalar leaves.
    spec fn scalar_arity() -> nat;

    /// The number of point leaves.
    spec fn point_arity() -> nat;

    /// The scalar leaves, in declaration order.
    spec fn scalar_leaves(&self) -> Seq<SymScalar>;

    /// The point leaves, in declaration order.
    spec fn point_leaves(&self) -> Seq<SymPoint>;

    /// The record whose leaves are constants holding `scalars` and `points`.
    spec fn spec_from_values(scalars: Seq<Scalar>, points: Seq<Point>) -> Self;

    /// The names of the leaves: scalar leaves first, then point leaves.
    spec fn field_names() -> Seq<Seq<char>>;

    proof fn lemma_arity(&self)
        ensures
            self.scalar_leaves().len() == Self::scalar_arity(),
            self.point_leaves().len() == Self::point_arity(),
            Self::field_names().len() == Self::scalar_arity() + Self::point_arity(),
    ;

    proof fn lemma_from_values(scalars: Seq<Scalar>, points: Seq<Point>)
        requires
            scalars.len() == Self::scalar_arity(),
            points.len() == Self::point_arity(),
        ensures
            Self::spec_from_values(scalars, points).scalar_leaves() == scalar_consts(scalars),
            Self::spec_from_values(scalars, points).point_leaves() == point_consts(points),
    ;

    /// The number of scalar leaves.
    fn num_scalars() -> (n: usize)
        ensures
            n == Self::scalar_arity(),
    ;

    /// The number of point leaves.
    fn num_points() -> (n: usize)
        ensures
            n == Self::point_arity(),
    ;

    /// The record whose leaves are constants holding `scalars` and `points`,
    /// consumed in declaration order; both counts must match exactly.
    fn from_values(scalars: &[Scalar], points: &[Point]) -> (r: SigmaProofResult<Self>)
        ensures
            r is Ok == (scalars@.len() == Self::scalar_arity() && points@.len()
                == Self::point_arity()),
            r matches Ok(x) ==> x == Self::spec_from_values(scalars@, points@),
            r matches Err(e) ==> instance_count_error(
                Self::scalar_arity(),
                Self::point_arity(),
                scalars@.len(),
                points@.len(),
            ) == Some(e),
    ;

    /// The names of the leaves: scalar leaves first, then point leaves.
    fn get_field_names() -> (r: Vec<&'static str>)
        ensures
            r@.len() == Self::field_names().len(),
            forall|i: int| 0 <= i < r@.len() ==> (#[trigger] r@[i])@ == Self::field_names()[i],
    ;

    /// The point leaves, in declaration order.
    fn points(&self) -> (r: Vec<SymPoint>)
        ensures
            r@ == self.point_leaves(),
            r@.len() == Self::point_arity(),
    ;

    /// The scalar leaves, in declaration order.
    fn scalars(&self) -> (r: Vec<SymScalar>)
        ensures
            r@ == self.scalar_leaves(),
            r@.len() == Self::scalar_arity(),
    ;
}

/// Flattening agrees with the declared arities: a witness has `num_scalars()`
/// leaves, an instance `num_scalars()` scalar and `num_points()` point leaves.
pub proof fn lemma_arity_consistency<W: SymWitness, I: SymInstance>(w: W, x: I)
    ensures
        w.leaves().len() == W::arity(),
        x.scalar_leaves().len() == I::scalar_arity(),
        x.point_leaves().len() == I::point_arity(),
{
    w.lemma_arity();
    x.lemma_arity();
}

/// Rebuilding a witness from the values it flattens to gives a witness that
/// flattens to the same values.
pub proof fn lemma_witness_round_trip<W: SymWitness>(w: W, values: Seq<Scalar>)
    requires
        evaluates_to(w.leaves(), values),
    ensures
        values.len() == W::arity(),
        evaluates_to(W::spec_from_values(values).leaves(), values),
{
    w.lemma_arity();
    W::lemma_from_values(values);
    let leaves = W::spec_from_values(values).leaves();
    assert forall|i: int| 0 <= i < leaves.len() implies (#[trigger] leaves[i]).value() == Some(
        values[i]@,
    ) by {
        assert(leaves[i] == SymScalar::Var(Some(values[i])));
    }
}

/// Rebuilding an instance from the scalars and points it flattens to gives
/// an instance that flattens to the same scalars and points.
pub proof fn lemma_instance_round_trip<I: SymInstance>(
    x: I,
    scalars: Seq<Scalar>,
    points: Seq<Point>,
)
    requires
        evaluates_to(x.scalar_leaves(), scalars),
        points_evaluate_to(x.point_leaves(), points),
    ensures
        scalars.len() == I::scalar_arity(),
        points.len() == I::point_arity(),
        evaluates_to(I::spec_from_values(scalars, points).scalar_leaves(), scalars),
        points_evaluate_to(I::spec_from_values(scalars, points).point_leaves(), points),
{
    x.lemma_arity();
    I::lemma_from_values(scalars, points);
    let y = I::spec_from_values(scalars, points);
    assert forall|i: int| 0 <= i < y.scalar_leaves().len() implies (#[trigger] y.scalar_leaves()[i]).value()
        == Some(scalars[i]@) by {
        assert(y.scalar_leaves()[i] == SymScalar::Const(scalars[i]));
    }
    assert forall|i: int| 0 <= i < y.point_leaves().len() implies (#[trigger] y.point_leaves()[i]).value()
        == Ok::<Seq<u8>, SigmaProofError>(points[i]@) by {
        assert(y.point_leaves()[i] == SymPoint::Const(points[i]));
    }
}

/// An instance names each of its leaves: `get_field_names()` has
/// `num_scalars() + num_points()` entries.
pub proof fn lemma_name_arity<I: SymInstance>(x: I)
    ensures
        I::field_names().len() == I::scalar_arity() + I::point_arity(),
{
    x.lemma_arity();
}

/// Checks that `actual` scalars are what a witness of arity `expected` takes.
pub fn check_witness_count(expected: usize, actual: usize) -> (r: SigmaProofResult<()>)
    ensures
        r is Ok == (actual == expected),
        r matches Err(e) ==> witness_count_error(expected as nat, actual as nat) == Some(e),
{
    if actual < expected {
        Err(SigmaProofError::InsufficientScalars)
    } else if actual > expected {
        Err(SigmaProofError::TooManyScalars { expected, actual })
    } else {
        Ok(())
    }
}

/// Checks that `n_scalars` scalars and `n_points` points are what an instance
/// declaring `expected_scalars` and `expected_points` takes.
pub fn check_instance_count(
    expected_scalars: usize,
    expected_points: usize,
    n_scalars: usize,
    n_points: usize,
) -> (r: SigmaProofResult<()>)
    ensures
        r is Ok == (n_scalars == expected_scalars && n_points == expected_points),
        r matches Err(e) ==> instance_count_error(
            expected_scalars as nat,
            expected_points as nat,
            n_scalars as nat,
            n_points as nat,
        ) == Some(e),
{
    if n_scalars < expected_scalars {
        Err(SigmaProofError::InsufficientScalars)
    } else if n_points < expected_points {
        Err(SigmaProofError::InsufficientPoints)
    } else if n_scalars > expected_scalars || n_points > expected_points {
        Err(SigmaProofError::TooManyScalars { expected: expected_scalars, actual: n_scalars })
    } else {
        Ok(())
    }
}

/// Evaluates scalar trees one by one.
pub fn evaluate_scalars(leaves: &Vec<SymScalar>) -> (r: SigmaProofResult<Vec<Scalar>>)
    ensures
        r is Ok == all_scalars_bound(leaves@),
        r matches Ok(v) ==> evaluates_to(leaves@, v@),
        r matches Err(e) ==> e is UninstantiatedScalar,
{
    let mut out: Vec<Scalar> = Vec::new();
    let mut i: usize = 0;
    while i < leaves.len()
        invariant
            0 <= i <= leaves@.len(),
            out@.len() == i,
            forall|j: int| 0 <= j < i ==> (#[trigger] leaves@[j]).value() == Some(out@[j]@),
        decreases leaves@.len() - i,
    {
        match leaves[i].evaluate() {
            Ok(s) => out.push(s),
            Err(e) => {
                assert(leaves@[i as int].value() is None);
                return Err(e);
            },
        }
        i = i + 1;
    }
    Ok(out)
}

/// Evaluates point trees one by one, stopping at the first failure.
pub fn evaluate_points(leaves: &Vec<SymPoint>) -> (r: SigmaProofResult<Vec<Point>>)
    ensures
        r is Ok == (first_point_error(leaves@) is None),
        r matches Ok(v) ==> points_evaluate_to(leaves@, v@),
        r matches Err(e) ==> first_point_error(leaves@) == Some(e),
{
    let mut out: Vec<Point> = Vec::new();
    let mut i: usize = 0;
    assert(leaves@.subrange(0, leaves@.len() as int) =~= leaves@);
    while i < leaves.len()
        invariant
            0 <= i <= leaves@.len(),
            out@.len() == i,
            forall|j: int|
                0 <= j < i ==> (#[trigger] leaves@[j]).value() == Ok::<Seq<u8>, SigmaProofError>(
                    out@[j]@,
                ),
            first_point_error(leaves@) == first_point_error(leaves@.subrange(i as int, leaves@.len() as int)),
        decreases leaves@.len() - i,
    {
        let ghost rest = leaves@.subrange(i as int, leaves@.len() as int);
        assert(rest[0] == leaves@[i as int]);
        assert(rest.drop_first() =~= leaves@.subrange(i + 1, leaves@.len() as int));
        match leaves[i].evaluate() {
            Ok(p) => out.push(p),
            Err(e) => {
                return Err(e);
            },
        }
        i = i + 1;
    }
    assert(leaves@.subrange(i as int, leaves@.len() as int).len() == 0);
    Ok(out)
}

impl SymWitness for SymScalar {
    open spec fn arity() -> nat {
        1
    }

    open spec fn leaves(&self) -> Seq<SymScalar> {
        seq![*self]
    }

    open spec fn spec_from_values(values: Seq<Scalar>) -> SymScalar {
        SymScalar::Var(Some(values[0]))
    }

    open spec fn var_names() -> Seq<Seq<char>> {
        seq!["s"@]
    }

    proof fn lemma_arity(&self) {
    }

    proof fn lemma_from_values(values: Seq<Scalar>) {
        assert(bound_vars(values) =~= seq![SymScalar::Var(Some(values[0]))]);
    }

    fn rand() -> (r: SymScalar) {
        SymScalar::Const(Scalar::random())
    }

    fn values(&self) -> (r: SigmaProofResult<Vec<Scalar>>) {
        match self.evaluate() {
            Ok(s) => {
                let v = vec![s];
                Ok(v)
            },
            Err(e) => {
                assert(self.leaves()[0] == *self);
                Err(e)
            },
        }
    }

    fn from_values(scalars: &[Scalar]) -> (r: SigmaProofResult<SymScalar>) {
        if scalars.len() == 1 {
            Ok(SymScalar::Var(Some(scalars[0])))
        } else if scalars.len() < 1 {
            Err(SigmaProofError::InsufficientScalars)
        } else {
            Err(SigmaProofError::TooManyScalars { expected: 1, actual: scalars.len() })
        }
    }

    fn num_scalars() -> (n: usize) {
        1
    }

    fn get_var_name(index: usize) -> (r: &'static str) {
        if index == 0 {
            proof {
                reveal_strlit("s");
            }
            "s"
        } else {
            "unknown"
        }
    }
}

impl SymInstance for SymScalar {
    open spec fn scalar_arity() -> nat {
        1
    }

    open spec fn point_arity() -> nat {
        0
    }

    open spec fn scalar_leaves(&self) -> Seq<SymScalar> {
        seq![*self]
    }

    open spec fn point_leaves(&self) -> Seq<SymPoint> {
        seq![]
    }

    open spec fn spec_from_values(scalars: Seq<Scalar>, points: Seq<Point>) -> SymScalar {
        SymScalar::Const(scalars[0])
    }

    open spec fn field_names() -> Seq<Seq<char>> {
        seq!["scalar"@]
    }

    proof fn lemma_arity(&self) {
    }

    proof fn lemma_from_values(scalars: Seq<Scalar>, points: Seq<Point>) {
        assert(scalar_consts(scalars) =~= seq![SymScalar::Const(scalars[0])]);
        assert(point_consts(points) =~= seq![]);
    }

    fn num_scalars() -> (n: usize) {
        1
    }

    fn num_points() -> (n: usize) {
        0
    }

    fn from_values(scalars: &[Scalar], points: &[Point]) -> (r: SigmaProofResult<SymScalar>) {
        if scalars.len() < 1 {
            Err(SigmaProofError::InsufficientScalars)
        } else if scalars.len() > 1 || points.len() > 0 {
            Err(SigmaProofError::TooManyScalars { expected: 1, actual: scalars.len() })
        } else {
            Ok(SymScalar::Const(scalars[0]))
        }
    }

    fn get_field_names() -> (r: Vec<&'static str>) {
        proof {
            reveal_strlit("scalar");
        }
        vec!["scalar"]
    }

    fn points(&self) -> (r: Vec<SymPoint>) {
        Vec::new()
    }

    fn scalars(&self) -> (r: Vec<SymScalar>) {
        vec![self.clone()]
    }
}

impl SymInstance for SymPoint {
    open spec fn scalar_arity() -> nat {
        0
    }

    open spec fn point_arity() -> nat {
        1
    }

    open spec fn scalar_leaves(&self) -> Seq<SymScalar> {
        seq![]
    }

    open spec fn point_leaves(&self) -> Seq<SymPoint> {
        seq![*self]
    }

    open spec fn spec_from_values(scalars: Seq<Scalar>, points: Seq<Point>) -> SymPoint {
        SymPoint::Const(points[0])
    }

    open spec fn field_names() -> Seq<Seq<char>> {
        seq!["point"@]
    }

    proof fn lemma_arity(&self) {
    }

    proof fn lemma_from_values(scalars: Seq<Scalar>, points: Seq<Point>) {
        assert(scalar_consts(scalars) =~= seq![]);
        assert(point_consts(points) =~= seq![SymPoint::Const(points[0])]);
    }

    fn num_scalars() -> (n: usize) {
        0
    }

    fn num_points() -> (n: usize) {
        1
    }

    fn from_values(scalars: &[Scalar], points: &[Point]) -> (r: SigmaProofResult<SymPoint>) {
        if points.len() < 1 {
            Err(SigmaProofError::InsufficientPoints)
        } else if scalars.len() > 0 || points.len() > 1 {
            Err(SigmaProofError::TooManyScalars { expected: 0, actual: scalars.len() })
        } else {
            Ok(SymPoint::Const(points[0]))
        }
    }

    fn get_field_names() -> (r: Vec<&'static str>) {
        proof {
            reveal_strlit("point");
        }
        vec!["point"]
    }

    fn points(&self) -> (r: Vec<SymPoint>) {
        vec![self.clone()]
    }

    fn scalars(&self) -> (r: Vec<SymScalar>) {
        Vec::new()
    }
}

} // verus!
