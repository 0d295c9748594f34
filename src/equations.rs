//! Symbolic scalars and points: expression trees that are built lazily and
//! evaluated in one pass.
use crate::errors::SigmaProofError;
use crate::group::{
    field_add, field_mul, field_neg, field_sub, ristretto_difference, ristretto_multiple,
    ristretto_negation, ristretto_sum, Point, Scalar,
};
use vstd::prelude::*;

verus! {

/// A value of the scalar field as an expression tree.
#[derive(Debug)]
pub enum SymScalar {
    Const(Scalar),
    Var(Option<Scalar>),
    Add(Box<SymScalar>, Box<SymScalar>),
    Sub(Box<SymScalar>, Box<SymScalar>),
    Neg(Box<SymScalar>),
    Mul(Box<SymScalar>, Box<SymScalar>),
}

/// A group element as an expression tree.
#[derive(Debug)]
pub enum SymPoint {
    Const(Point),
    WellKnownConst(&'static str, Point),
    Var(Option<Point>),
    Add(Box<SymPoint>, Box<SymPoint>),
    Sub(Box<SymPoint>, Box<SymPoint>),
    Neg(Box<SymPoint>),
    Scale(Box<SymScalar>, Box<SymPoint>),
}

impl SymScalar {
    /// The field element the tree evaluates to, or `None` where a leaf is an
    /// uninstantiated variable.
    pub open spec fn value(self) -> Option<nat>
        decreases self,
    {
        match self {
            SymScalar::Const(s) => Some(s@),
            SymScalar::Var(v) => match v {
                Some(s) => Some(s@),
                None => None,
            },
            SymScalar::Add(a, b) => match (a.value(), b.value()) {
                (Some(x), Some(y)) => Some(field_add(x, y)),
                _ => None,
            },
            SymScalar::Sub(a, b) => match (a.value(), b.value()) {
                (Some(x), Some(y)) => Some(field_sub(x, y)),
                _ => None,
            },
            SymScalar::Neg(a) => match a.value() {
                Some(x) => Some(field_neg(x)),
                None => None,
            },
            SymScalar::Mul(a, b) => match (a.value(), b.value()) {
                (Some(x), Some(y)) => Some(field_mul(x, y)),
                _ => None,
            },
        }
    }

    /// Whether some leaf of the tree is an uninstantiated variable.
    pub open spec fn has_unbound(self) -> bool
        decreases self,
    {
        match self {
            SymScalar::Const(_) => false,
            SymScalar::Var(v) => v is None,
            SymScalar::Add(a, b) => a.has_unbound() || b.has_unbound(),
            SymScalar::Sub(a, b) => a.has_unbound() || b.has_unbound(),
            SymScalar::Neg(a) => a.has_unbound(),
            SymScalar::Mul(a, b) => a.has_unbound() || b.has_unbound(),
        }
    }

    /// Evaluates the tree bottom-up with the field operations.
    pub fn evaluate(&self) -> (r: Result<Scalar, SigmaProofError>)
        ensures
            r.is_ok() == self.value().is_some(),
            r matches Ok(s) ==> s@ == self.value().unwrap(),
            r matches Err(e) ==> e is UninstantiatedScalar,
        decreases self,
    {
        match self {
            SymScalar::Const(s) => Ok(*s),
            SymScalar::Var(v) => match v {
                Some(s) => Ok(*s),
                None => Err(SigmaProofError::UninstantiatedScalar),
            },
            SymScalar::Add(a, b) => {
                let x = a.evaluate()?;
                let y = b.evaluate()?;
                Ok(x.add(&y))
            },
            SymScalar::Sub(a, b) => {
                let x = a.evaluate()?;
                let y = b.evaluate()?;
                Ok(x.sub(&y))
            },
            SymScalar::Neg(a) => {
                let x = a.evaluate()?;
                Ok(x.neg())
            },
            SymScalar::Mul(a, b) => {
                let x = a.evaluate()?;
                let y = b.evaluate()?;
                Ok(x.mul(&y))
            },
        }
    }
}

impl SymPoint {
    /// The encoding of the group element the tree evaluates to, or the error
    /// of the first uninstantiated leaf met from left to right.
    pub open spec fn value(self) -> Result<Seq<u8>, SigmaProofError>
        decreases self,
    {
        match self {
            SymPoint::Const(p) => Ok(p@),
            SymPoint::WellKnownConst(_, p) => Ok(p@),
            SymPoint::Var(v) => match v {
                Some(p) => Ok(p@),
                None => Err(SigmaProofError::UninstantiatedPoint),
            },
            SymPoint::Add(a, b) => match a.value() {
                Ok(x) => match b.value() {
                    Ok(y) => Ok(ristretto_sum(x, y)),
                    Err(e) => Err(e),
                },
                Err(e) => Err(e),
            },
            SymPoint::Sub(a, b) => match a.value() {
                Ok(x) => match b.value() {
                    Ok(y) => Ok(ristretto_difference(x, y)),
                    Err(e) => Err(e),
                },
                Err(e) => Err(e),
            },
            SymPoint::Neg(a) => match a.value() {
                Ok(x) => Ok(ristretto_negation(x)),
                Err(e) => Err(e),
            },
            SymPoint::Scale(s, a) => match s.value() {
                Some(k) => match a.value() {
                    Ok(x) => Ok(ristretto_multiple(k, x)),
                    Err(e) => Err(e),
                },
                None => Err(SigmaProofError::UninstantiatedScalar),
            },
        }
    }

    /// Whether some leaf of the tree, scalar or point, is an uninstantiated
    /// variable.
    pub open spec fn has_unbound(self) -> bool
        decreases self,
    {
        match self {
            SymPoint::Const(_) => false,
            SymPoint::WellKnownConst(_, _) => false,
            SymPoint::Var(v) => v is None,
            SymPoint::Add(a, b) => a.has_unbound() || b.has_unbound(),
            SymPoint::Sub(a, b) => a.has_unbound() || b.has_unbound(),
            SymPoint::Neg(a) => a.has_unbound(),
            SymPoint::Scale(s, a) => s.has_unbound() || a.has_unbound(),
        }
    }

    /// Evaluates the tree bottom-up with the group operations.
    pub fn evaluate(&self) -> (r: Result<Point, SigmaProofError>)
        ensures
            r matches Ok(p) ==> self.value() == Ok::<Seq<u8>, SigmaProofError>(p@),
            r matches Err(e) ==> self.value() == Err::<Seq<u8>, SigmaProofError>(e),
        decreases self,
    {
        match self {
            SymPoint::Const(p) => Ok(*p),
            SymPoint::WellKnownConst(_, p) => Ok(*p),
            SymPoint::Var(v) => match v {
                Some(p) => Ok(*p),
                None => Err(SigmaProofError::UninstantiatedPoint),
            },
            SymPoint::Add(a, b) => {
                let x = a.evaluate()?;
                let y = b.evaluate()?;
                Ok(x.add(&y))
            },
            SymPoint::Sub(a, b) => {
                let x = a.evaluate()?;
                let y = b.evaluate()?;
                Ok(x.sub(&y))
            },
            SymPoint::Neg(a) => {
                let x = a.evaluate()?;
                Ok(x.neg())
            },
            SymPoint::Scale(s, a) => {
                let k = s.evaluate()?;
                let x = a.evaluate()?;
                Ok(x.scale(&k))
            },
        }
    }
}

impl Clone for SymScalar {
    /// A deep copy of the tree.
    fn clone(&self) -> (r: SymScalar)
        ensures
            r == *self,
        decreases self,
    {
        match self {
            SymScalar::Const(s) => SymScalar::Const(*s),
            SymScalar::Var(v) => SymScalar::Var(*v),
            SymScalar::Add(a, b) => SymScalar::Add(Box::new((**a).clone()), Box::new((**b).clone())),
            SymScalar::Sub(a, b) => SymScalar::Sub(Box::new((**a).clone()), Box::new((**b).clone())),
            SymScalar::Neg(a) => SymScalar::Neg(Box::new((**a).clone())),
            SymScalar::Mul(a, b) => SymScalar::Mul(Box::new((**a).clone()), Box::new((**b).clone())),
        }
    }
}

impl Clone for SymPoint {
    /// A deep copy of the tree.
    fn clone(&self) -> (r: SymPoint)
        ensures
            r == *self,
        decreases self,
    {
        match self {
            SymPoint::Const(p) => SymPoint::Const(*p),
            SymPoint::WellKnownConst(n, p) => SymPoint::WellKnownConst(n, *p),
            SymPoint::Var(v) => SymPoint::Var(*v),
            SymPoint::Add(a, b) => SymPoint::Add(Box::new((**a).clone()), Box::new((**b).clone())),
            SymPoint::Sub(a, b) => SymPoint::Sub(Box::new((**a).clone()), Box::new((**b).clone())),
            SymPoint::Neg(a) => SymPoint::Neg(Box::new((**a).clone())),
            SymPoint::Scale(s, a) => SymPoint::Scale(Box::new((**s).clone()), Box::new((**a).clone())),
        }
    }
}

impl core::ops::Add<SymScalar> for SymScalar {
    type Output = SymScalar;

    /// The sum `self + rhs`, as a tree.
    fn add(self, rhs: SymScalar) -> (r: SymScalar)
        ensures
            r == SymScalar::Add(Box::new(self), Box::new(rhs)),
    {
        SymScalar::Add(Box::new(self), Box::new(rhs))
    }
}

impl vstd::std_specs::ops::AddSpecImpl<SymScalar> for SymScalar {
    open spec fn obeys_add_spec() -> bool {
        true
    }

    open spec fn add_req(self, rhs: SymScalar) -> bool {
        true
    }

    open spec fn add_spec(self, rhs: SymScalar) -> SymScalar {
        SymScalar::Add(Box::new(self), Box::new(rhs))
    }
}

impl core::ops::Sub<SymScalar> for SymScalar {
    type Output = SymScalar;

    /// The difference `self - rhs`, as a tree.
    fn sub(self, rhs: SymScalar) -> (r: SymScalar)
        ensures
            r == SymScalar::Sub(Box::new(self), Box::new(rhs)),
    {
        SymScalar::Sub(Box::new(self), Box::new(rhs))
    }
}

impl vstd::std_specs::ops::SubSpecImpl<SymScalar> for SymScalar {
    open spec fn obeys_sub_spec() -> bool {
        true
    }

    open spec fn sub_req(self, rhs: SymScalar) -> bool {
        true
    }

    open spec fn sub_spec(self, rhs: SymScalar) -> SymScalar {
        SymScalar::Sub(Box::new(self), Box::new(rhs))
    }
}

impl core::ops::Mul<SymScalar> for SymScalar {
    type Output = SymScalar;

    /// The product `self * rhs`, as a tree.
    fn mul(self, rhs: SymScalar) -> (r: SymScalar)
        ensures
            r == SymScalar::Mul(Box::new(self), Box::new(rhs)),
    {
        SymScalar::Mul(Box::new(self), Box::new(rhs))
    }
}

impl vstd::std_specs::ops::MulSpecImpl<SymScalar> for SymScalar {
    open spec fn obeys_mul_spec() -> bool {
        true
    }

    open spec fn mul_req(self, rhs: SymScalar) -> bool {
        true
    }

    open spec fn mul_spec(self, rhs: SymScalar) -> SymScalar {
        SymScalar::Mul(Box::new(self), Box::new(rhs))
    }
}

impl core::ops::Neg for SymScalar {
    type Output = SymScalar;

    /// The negation `-self`, as a tree.
    fn neg(self) -> (r: SymScalar)
        ensures
            r == SymScalar::Neg(Box::new(self)),
    {
        SymScalar::Neg(Box::new(self))
    }
}

impl vstd::std_specs::ops::NegSpecImpl for SymScalar {
    open spec fn obeys_neg_spec() -> bool {
        true
    }

    open spec fn neg_req(self) -> bool {
        true
    }

    open spec fn neg_spec(self) -> SymScalar {
        SymScalar::Neg(Box::new(self))
    }
}

impl core::ops::Mul<SymPoint> for SymScalar {
    type Output = SymPoint;

    /// The multiple `self * rhs` of a point, as a tree.
    fn mul(self, rhs: SymPoint) -> (r: SymPoint)
        ensures
            r == SymPoint::Scale(Box::new(self), Box::new(rhs)),
    {
        SymPoint::Scale(Box::new(self), Box::new(rhs))
    }
}

impl vstd::std_specs::ops::MulSpecImpl<SymPoint> for SymScalar {
    open spec fn obeys_mul_spec() -> bool {
        true
    }

    open spec fn mul_req(self, rhs: SymPoint) -> bool {
        true
    }

    open spec fn mul_spec(self, rhs: SymPoint) -> SymPoint {
        SymPoint::Scale(Box::new(self), Box::new(rhs))
    }
}

impl core::ops::Add<SymPoint> for SymPoint {
    type Output = SymPoint;

    /// The sum `self + rhs`, as a tree.
    fn add(self, rhs: SymPoint) -> (r: SymPoint)
        ensures
            r == SymPoint::Add(Box::new(self), Box::new(rhs)),
    {
        SymPoint::Add(Box::new(self), Box::new(rhs))
    }
}

impl vstd::std_specs::ops::AddSpecImpl<SymPoint> for SymPoint {
    open spec fn obeys_add_spec() -> bool {
        true
    }

    open spec fn add_req(self, rhs: SymPoint) -> bool {
        true
    }

    open spec fn add_spec(self, rhs: SymPoint) -> SymPoint {
        SymPoint::Add(Box::new(self), Box::new(rhs))
    }
}

impl core::ops::Sub<SymPoint> for SymPoint {
    type Output = SymPoint;

    /// The difference `self - rhs`, as a tree.
    fn sub(self, rhs: SymPoint) -> (r: SymPoint)
        ensures
            r == SymPoint::Sub(Box::new(self), Box::new(rhs)),
    {
        SymPoint::Sub(Box::new(self), Box::new(rhs))
    }
}

impl vstd::std_specs::ops::SubSpecImpl<SymPoint> for SymPoint {
    open spec fn obeys_sub_spec() -> bool {
        true
    }

    open spec fn sub_req(self, rhs: SymPoint) -> bool {
        true
    }

    open spec fn sub_spec(self, rhs: SymPoint) -> SymPoint {
        SymPoint::Sub(Box::new(self), Box::new(rhs))
    }
}

impl core::ops::Neg for SymPoint {
    type Output = SymPoint;

    /// The inverse `-self`, as a tree.
    fn neg(self) -> (r: SymPoint)
        ensures
            r == SymPoint::Neg(Box::new(self)),
    {
        SymPoint::Neg(Box::new(self))
    }
}

impl vstd::std_specs::ops::NegSpecImpl for SymPoint {
    open spec fn obeys_neg_spec() -> bool {
        true
    }

    open spec fn neg_req(self) -> bool {
        true
    }

    open spec fn neg_spec(self) -> SymPoint {
        SymPoint::Neg(Box::new(self))
    }
}

impl core::ops::Mul<SymPoint> for Scalar {
    type Output = SymPoint;

    /// The multiple `self * rhs` of a point by a constant, as a tree.
    fn mul(self, rhs: SymPoint) -> (r: SymPoint)
        ensures
            r == SymPoint::Scale(Box::new(SymScalar::Const(self)), Box::new(rhs)),
    {
        SymPoint::Scale(Box::new(SymScalar::Const(self)), Box::new(rhs))
    }
}

impl vstd::std_specs::ops::MulSpecImpl<SymPoint> for Scalar {
    open spec fn obeys_mul_spec() -> bool {
        true
    }

    open spec fn mul_req(self, rhs: SymPoint) -> bool {
        true
    }

    open spec fn mul_spec(self, rhs: SymPoint) -> SymPoint {
        SymPoint::Scale(Box::new(SymScalar::Const(self)), Box::new(rhs))
    }
}

/// Evaluation maps each scalar constructor to the matching field operation.
pub proof fn lemma_scalar_evaluate_homomorphism(a: SymScalar, b: SymScalar)
    requires
        a.value() is Some,
        b.value() is Some,
    ensures
        SymScalar::Add(Box::new(a), Box::new(b)).value() == Some(
            field_add(a.value().unwrap(), b.value().unwrap()),
        ),
        SymScalar::Sub(Box::new(a), Box::new(b)).value() == Some(
            field_sub(a.value().unwrap(), b.value().unwrap()),
        ),
        SymScalar::Mul(Box::new(a), Box::new(b)).value() == Some(
            field_mul(a.value().unwrap(), b.value().unwrap()),
        ),
        SymScalar::Neg(Box::new(a)).value() == Some(field_neg(a.value().unwrap())),
{
}

/// Evaluation maps each point constructor to the matching group operation.
pub proof fn lemma_point_evaluate_homomorphism(s: SymScalar, a: SymPoint, b: SymPoint)
    requires
        s.value() is Some,
        a.value() is Ok,
        b.value() is Ok,
    ensures
        SymPoint::Add(Box::new(a), Box::new(b)).value() == Ok::<Seq<u8>, SigmaProofError>(
            ristretto_sum(a.value()->Ok_0, b.value()->Ok_0),
        ),
        SymPoint::Sub(Box::new(a), Box::new(b)).value() == Ok::<Seq<u8>, SigmaProofError>(
            ristretto_difference(a.value()->Ok_0, b.value()->Ok_0),
        ),
        SymPoint::Neg(Box::new(a)).value() == Ok::<Seq<u8>, SigmaProofError>(
            ristretto_negation(a.value()->Ok_0),
        ),
        SymPoint::Scale(Box::new(s), Box::new(a)).value() == Ok::<Seq<u8>, SigmaProofError>(
            ristretto_multiple(s.value().unwrap(), a.value()->Ok_0),
        ),
{
}

/// A scalar tree fails to evaluate exactly when one of its leaves is an
/// uninstantiated variable.
pub proof fn lemma_scalar_unbound_fails(a: SymScalar)
    ensures
        a.value() is None <==> a.has_unbound(),
    decreases a,
{
    match a {
        SymScalar::Const(_) => {},
        SymScalar::Var(_) => {},
        SymScalar::Add(x, y) => {
            lemma_scalar_unbound_fails(*x);
            lemma_scalar_unbound_fails(*y);
        },
        SymScalar::Sub(x, y) => {
            lemma_scalar_unbound_fails(*x);
            lemma_scalar_unbound_fails(*y);
        },
        SymScalar::Neg(x) => {
            lemma_scalar_unbound_fails(*x);
        },
        SymScalar::Mul(x, y) => {
            lemma_scalar_unbound_fails(*x);
            lemma_scalar_unbound_fails(*y);
        },
    }
}

/// A point tree fails to evaluate exactly when one of its leaves, scalar or
/// point, is an uninstantiated variable.
pub proof fn lemma_point_unbound_fails(a: SymPoint)
    ensures
        a.value() is Err <==> a.has_unbound(),
    decreases a,
{
    match a {
        SymPoint::Const(_) => {},
        SymPoint::WellKnownConst(_, _) => {},
        SymPoint::Var(_) => {},
        SymPoint::Add(x, y) => {
            lemma_point_unbound_fails(*x);
            lemma_point_unbound_fails(*y);
        },
        SymPoint::Sub(x, y) => {
            lemma_point_unbound_fails(*x);
            lemma_point_unbound_fails(*y);
        },
        SymPoint::Neg(x) => {
            lemma_point_unbound_fails(*x);
        },
        SymPoint::Scale(s, x) => {
            lemma_scalar_unbound_fails(*s);
            lemma_point_unbound_fails(*x);
        },
    }
}

} // verus!
