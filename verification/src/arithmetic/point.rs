//! Points of a short Weierstrass curve `y^2 = x^3 + a*x + b` over a prime
//! field, and the group law on them.

use crate::arithmetic::field::{
    field_add, field_div, field_mul, field_pow, field_scale, field_sub, residue_of, residue_text,
    FieldElement, Residue,
};
use crate::errors::{FieldError, PointError};
use crate::integer::Integer;
use vstd::prelude::*;
use vstd::std_specs::cmp::PartialEqSpecImpl;

verus! {

/// The mathematical content of a point: the identity of a curve, or a pair of
/// coordinates on it.
pub enum PointValue {
    Infinity { a: Residue, b: Residue },
    Finite { x: Residue, y: Residue, a: Residue, b: Residue },
}

impl PointValue {
    /// The coefficient `a` of the point's curve.
    pub open spec fn a(self) -> Residue {
        match self {
            PointValue::Infinity { a, .. } => a,
            PointValue::Finite { a, .. } => a,
        }
    }

    /// The coefficient `b` of the point's curve.
    pub open spec fn b(self) -> Residue {
        match self {
            PointValue::Infinity { b, .. } => b,
            PointValue::Finite { b, .. } => b,
        }
    }

    /// The identity of the point's curve.
    pub open spec fn identity(self) -> PointValue {
        PointValue::Infinity { a: self.a(), b: self.b() }
    }

    /// Every component is a reduced residue, and those of a finite point
    /// share one modulus.
    pub open spec fn wf(self) -> bool {
        match self {
            PointValue::Infinity { a, b } => a.wf() && b.wf(),
            PointValue::Finite { x, y, a, b } => {
                &&& x.wf()
                &&& y.wf()
                &&& a.wf()
                &&& b.wf()
                &&& y.modulus == x.modulus
                &&& a.modulus == x.modulus
                &&& b.modulus == x.modulus
            },
        }
    }

    /// A finite point's coordinates satisfy the equation of its curve.
    pub open spec fn on_curve(self) -> bool {
        match self {
            PointValue::Infinity { .. } => true,
            PointValue::Finite { x, y, a, b } => satisfies_equation(x, y, a, b),
        }
    }
}

/// `y^2 == x^3 + a*x + b`, computed with the operations of the field.
pub open spec fn satisfies_equation(x: Residue, y: Residue, a: Residue, b: Residue) -> bool {
    field_pow(y, 2) == field_add(field_add(field_pow(x, 3), field_mul(a, x)), b)
}

/// The two points lie on one curve: their coefficients agree.
pub open spec fn same_curve(p: PointValue, q: PointValue) -> bool {
    p.a() == q.a() && p.b() == q.b()
}

/// The tangent rule: the sum of a point with itself.
pub open spec fn curve_double(p: PointValue) -> PointValue {
    match p {
        PointValue::Infinity { .. } => p,
        PointValue::Finite { x, y, a, b } => {
            if y.value == 0 {
                PointValue::Infinity { a, b }
            } else {
                let m = field_div(
                    field_add(field_scale(field_pow(x, 2), 3), a),
                    field_scale(y, 2),
                );
                let x3 = field_sub(field_pow(m, 2), field_scale(x, 2));
                let y3 = field_sub(field_mul(m, field_sub(x, x3)), y);
                PointValue::Finite { x: x3, y: y3, a, b }
            }
        },
    }
}

/// The chord rule: the sum of two finite points with different first
/// coordinates. On other arguments it is the first argument.
pub open spec fn curve_chord(p: PointValue, q: PointValue) -> PointValue {
    match (p, q) {
        (
            PointValue::Finite { x: x1, y: y1, a, b },
            PointValue::Finite { x: x2, y: y2, .. },
        ) => {
            let m = field_div(field_sub(y2, y1), field_sub(x2, x1));
            let x3 = field_sub(field_sub(field_pow(m, 2), x1), x2);
            let y3 = field_sub(field_mul(m, field_sub(x1, x3)), y1);
            PointValue::Finite { x: x3, y: y3, a, b }
        },
        _ => p,
    }
}

/// The two points are finite, have the same first coordinate and different
/// second coordinates.
pub open spec fn are_inverse(p: PointValue, q: PointValue) -> bool {
    match (p, q) {
        (
            PointValue::Finite { x: x1, y: y1, .. },
            PointValue::Finite { x: x2, y: y2, .. },
        ) => same_curve(p, q) && x1 == x2 && y1 != y2,
        _ => false,
    }
}

/// The group law on two points of one curve.
pub open spec fn curve_add(p: PointValue, q: PointValue) -> PointValue {
    if p is Infinity {
        q
    } else if q is Infinity {
        p
    } else if are_inverse(p, q) {
        p.identity()
    } else if p == q {
        curve_double(p)
    } else {
        curve_chord(p, q)
    }
}

/// Double-and-add from the lowest bit of `k` upwards: `acc` collects the
/// multiples of the set bits, `current` is doubled at each step.
pub open spec fn double_and_add(k: nat, acc: PointValue, current: PointValue) -> PointValue
    decreases k,
{
    if k == 0 {
        acc
    } else {
        let next = if k % 2 == 1 {
            curve_add(acc, current)
        } else {
            acc
        };
        double_and_add(k / 2, next, curve_add(current, current))
    }
}

/// The multiple `k * p`, by double-and-add.
pub open spec fn scalar_multiple(k: nat, p: PointValue) -> PointValue {
    double_and_add(k, p.identity(), p)
}

/// The text of a point.
pub open spec fn point_text(p: PointValue) -> Seq<char> {
    match p {
        PointValue::Finite { x, y, a, b } => "("@ + residue_text(x) + ", "@ + residue_text(y)
            + ") on y² = x³ + "@ + residue_text(a) + "x + "@ + residue_text(b),
        PointValue::Infinity { a, b } => "O on y² = x³ + "@ + residue_text(a) + "x + "@
            + residue_text(b),
    }
}

/// A point of an elliptic curve: the identity, or a pair of coordinates.
#[derive(Debug)]
pub enum Point {
    Infinity { a: FieldElement, b: FieldElement },
    Finite { x: FieldElement, y: FieldElement, a: FieldElement, b: FieldElement },
}

impl View for Point {
    type V = PointValue;

    open spec fn view(&self) -> PointValue {
        match self {
            Point::Infinity { a, b } => PointValue::Infinity { a: a@, b: b@ },
            Point::Finite { x, y, a, b } => PointValue::Finite { x: x@, y: y@, a: a@, b: b@ },
        }
    }
}

impl Clone for Point {
    fn clone(&self) -> (r: Self)
        ensures
            r@ == self@,
    {
        match self {
            Point::Infinity { a, b } => Point::Infinity { a: a.clone(), b: b.clone() },
            Point::Finite { x, y, a, b } => Point::Finite {
                x: x.clone(),
                y: y.clone(),
                a: a.clone(),
                b: b.clone(),
            },
        }
    }
}

impl PartialEq for Point {
    fn eq(&self, other: &Self) -> (r: bool) {
        match (self, other) {
            (
                Point::Finite { x: x1, y: y1, a: a1, b: b1 },
                Point::Finite { x: x2, y: y2, a: a2, b: b2 },
            ) => x1 == x2 && y1 == y2 && a1 == a2 && b1 == b2,
            (Point::Infinity { a: a1, b: b1 }, Point::Infinity { a: a2, b: b2 }) => a1 == a2 && b1
                == b2,
            _ => false,
        }
    }
}

impl PartialEqSpecImpl for Point {
    open spec fn obeys_eq_spec() -> bool {
        true
    }

    open spec fn eq_spec(&self, other: &Self) -> bool {
        self@ == other@
    }
}

/// Carries the result of a field operation over to the errors of points.
fn lift(r: Result<FieldElement, FieldError>) -> (out: Result<FieldElement, PointError>)
    ensures
        r is Ok ==> out == Ok::<FieldElement, PointError>(r->Ok_0),
        r is Err ==> out == Err::<FieldElement, PointError>(PointError::FieldError(r->Err_0)),
{
    match r {
        Ok(v) => Ok(v),
        Err(e) => Err(PointError::FieldError(e)),
    }
}

impl Point {
    /// Every component is a reduced residue, and those of a finite point
    /// share one modulus.
    pub open spec fn wf(&self) -> bool {
        self@.wf()
    }

    /// The finite point `(x, y)` of the curve with coefficients `a` and `b`,
    /// if it satisfies `y^2 = x^3 + a*x + b`. The equation is computed with
    /// the operations of the field: `DifferentFields` where `a` or `b` has
    /// another modulus than `x`, `NotOnCurve` with the texts of the two
    /// coordinates where the two sides differ.
    pub fn finite(x: FieldElement, y: FieldElement, a: FieldElement, b: FieldElement) -> (r: Result<
        Point,
        PointError,
    >)
        requires
            x.wf(),
            y.wf(),
            a.wf(),
            b.wf(),
        ensures
            (a@.modulus != x@.modulus || b@.modulus != x@.modulus) ==> r == Err::<
                Point,
                PointError,
            >(PointError::FieldError(FieldError::DifferentFields)),
            (a@.modulus == x@.modulus && b@.modulus == x@.modulus && !satisfies_equation(
                x@,
                y@,
                a@,
                b@,
            )) ==> (r matches Err(PointError::NotOnCurve { x: xt, y: yt }) && xt@ == residue_text(
                x@,
            ) && yt@ == residue_text(y@)),
            (a@.modulus == x@.modulus && b@.modulus == x@.modulus && satisfies_equation(
                x@,
                y@,
                a@,
                b@,
            )) ==> (r matches Ok(p) && p == (Point::Finite { x, y, a, b }) && p.wf()
                && p@.on_curve()),
    {
        let lhs = y.pow(&Integer::from_i64(2));
        let x_cubed = x.pow(&Integer::from_i64(3));
        let ax = lift(a.mul(&x))?;
        let rhs = lift(lift(x_cubed.add(&ax))?.add(&b))?;
        if lhs != rhs {
            return Err(PointError::NotOnCurve { x: x.to_text(), y: y.to_text() });
        }
        Ok(Point::Finite { x, y, a, b })
    }

    /// The identity of the curve with coefficients `a` and `b`.
    pub fn infinity(a: FieldElement, b: FieldElement) -> (r: Point)
        ensures
            r == (Point::Infinity { a, b }),
    {
        Point::Infinity { a, b }
    }

    /// The point given by optional coordinates: the identity where both are
    /// absent, the finite point where both are present, an error where only
    /// one is.
    pub fn from(
        x: Option<FieldElement>,
        y: Option<FieldElement>,
        a: FieldElement,
        b: FieldElement,
    ) -> (r: Result<Point, PointError>)
        requires
            x is Some ==> x->Some_0.wf(),
            y is Some ==> y->Some_0.wf(),
            a.wf(),
            b.wf(),
        ensures
            x is None && y is None ==> r == Ok::<Point, PointError>(Point::Infinity { a, b }),
            x is Some && y is None ==> (r matches Err(PointError::InvalidXOnly { x: xt }) && xt@
                == residue_text(x->Some_0@)),
            x is None && y is Some ==> (r matches Err(PointError::InvalidYOnly { y: yt }) && yt@
                == residue_text(y->Some_0@)),
            x is Some && y is Some ==> {
                let (xs, ys) = (x->Some_0, y->Some_0);
                &&& (a@.modulus != xs@.modulus || b@.modulus != xs@.modulus) ==> r == Err::<
                    Point,
                    PointError,
                >(PointError::FieldError(FieldError::DifferentFields))
                &&& (a@.modulus == xs@.modulus && b@.modulus == xs@.modulus && !satisfies_equation(
                    xs@,
                    ys@,
                    a@,
                    b@,
                )) ==> (r matches Err(PointError::NotOnCurve { x: xt, y: yt }) && xt@
                    == residue_text(xs@) && yt@ == residue_text(ys@))
                &&& (a@.modulus == xs@.modulus && b@.modulus == xs@.modulus && satisfies_equation(
                    xs@,
                    ys@,
                    a@,
                    b@,
                )) ==> r == Ok::<Point, PointError>(Point::Finite { x: xs, y: ys, a, b })
            },
    {
        match (x, y) {
            (Some(xs), Some(ys)) => Point::finite(xs, ys, a, b),
            (Some(xs), None) => Err(PointError::InvalidXOnly { x: xs.to_text() }),
            (None, Some(ys)) => Err(PointError::InvalidYOnly { y: ys.to_text() }),
            (None, None) => Ok(Point::Infinity { a, b }),
        }
    }

    /// The coefficient `a` of the point's curve.
    pub fn a(&self) -> (r: &FieldElement)
        ensures
            r@ == self@.a(),
    {
        match self {
            Point::Infinity { a, .. } => a,
            Point::Finite { a, .. } => a,
        }
    }

    /// The coefficient `b` of the point's curve.
    pub fn b(&self) -> (r: &FieldElement)
        ensures
            r@ == self@.b(),
    {
        match self {
            Point::Infinity { b, .. } => b,
            Point::Finite { b, .. } => b,
        }
    }

    /// The sum where one of the two points is the identity: the other point.
    fn add_identity(&self, other: &Point) -> (r: Point)
        requires
            self@ is Infinity || other@ is Infinity,
        ensures
            r@ == curve_add(self@, other@),
    {
        match (self, other) {
            (Point::Infinity { .. }, p) => p.clone(),
            (p, _) => p.clone(),
        }
    }

    /// The sum of a point and its mirror image: the identity of the curve.
    fn add_inverse_points(&self, _other: &Point) -> (r: Point)
        ensures
            r@ == self@.identity(),
    {
        match self {
            Point::Finite { a, b, .. } => Point::Infinity { a: a.clone(), b: b.clone() },
            Point::Infinity { a, b } => Point::Infinity { a: a.clone(), b: b.clone() },
        }
    }

    /// The sum of a point with itself, by the tangent rule. Where the second
    /// coordinate is zero the tangent is vertical and the sum is the identity.
    fn point_doubling(&self) -> (r: Result<Point, PointError>)
        requires
            self.wf(),
        ensures
            r is Ok,
            r->Ok_0@ == curve_double(self@),
            r->Ok_0.wf(),
    {
        match self {
            Point::Finite { x, y, a, b } => {
                let zero = lift(FieldElement::from(Integer::from_i64(0), y.prime().clone()))?;
                if *y == zero {
                    return Ok(Point::Infinity { a: a.clone(), b: b.clone() });
                }
                let three_x_squared = x.pow(&Integer::from_i64(2)).scale(&Integer::from_i64(3));
                let numerator = lift(three_x_squared.add(a))?;
                let denominator = y.scale(&Integer::from_i64(2));
                let m = lift(numerator.div(&denominator))?;

                let m_squared = m.pow(&Integer::from_i64(2));
                let two_x = x.scale(&Integer::from_i64(2));
                let x3 = lift(m_squared.sub(&two_x))?;

                let x_minus_x3 = lift(x.sub(&x3))?;
                let m_times_diff = lift(m.mul(&x_minus_x3))?;
                let y3 = lift(m_times_diff.sub(y))?;

                Ok(Point::Finite { x: x3, y: y3, a: a.clone(), b: b.clone() })
            },
            Point::Infinity { a, b } => Ok(Point::Infinity { a: a.clone(), b: b.clone() }),
        }
    }

    /// The sum of two finite points by the chord rule.
    fn add_different_points(&self, other: &Point) -> (r: Result<Point, PointError>)
        requires
            self.wf(),
            other.wf(),
            self@ is Finite,
            other@ is Finite,
            same_curve(self@, other@),
        ensures
            r is Ok,
            r->Ok_0@ == curve_chord(self@, other@),
            r->Ok_0.wf(),
    {
        match (self, other) {
            (Point::Finite { x: x1, y: y1, a, b }, Point::Finite { x: x2, y: y2, .. }) => {
                let y_diff = lift(y2.sub(y1))?;
                let x_diff = lift(x2.sub(x1))?;
                let m = lift(y_diff.div(&x_diff))?;

                let m_squared = m.pow(&Integer::from_i64(2));
                let x3 = lift(lift(m_squared.sub(x1))?.sub(x2))?;

                let x1_minus_x3 = lift(x1.sub(&x3))?;
                let m_times_diff = lift(m.mul(&x1_minus_x3))?;
                let y3 = lift(m_times_diff.sub(y1))?;

                Ok(Point::Finite { x: x3, y: y3, a: a.clone(), b: b.clone() })
            },
            _ => Ok(self.clone()),
        }
    }

    /// Whether the two points are finite, on one curve, with the same first
    /// coordinate and different second coordinates.
    fn is_inverse_of(&self, other: &Point) -> (r: bool)
        ensures
            r == are_inverse(self@, other@),
    {
        match (self, other) {
            (
                Point::Finite { x: x1, y: y1, a: a1, b: b1 },
                Point::Finite { x: x2, y: y2, a: a2, b: b2 },
            ) => a1 == a2 && b1 == b2 && x1 == x2 && y1 != y2,
            _ => false,
        }
    }

    /// Whether the two points are the same point of the same curve.
    fn is_same_point(&self, other: &Point) -> (r: bool)
        ensures
            r == (self@ == other@),
    {
        match (self, other) {
            (
                Point::Finite { x: x1, y: y1, a: a1, b: b1 },
                Point::Finite { x: x2, y: y2, a: a2, b: b2 },
            ) => a1 == a2 && b1 == b2 && x1 == x2 && y1 == y2,
            (Point::Infinity { a: a1, b: b1 }, Point::Infinity { a: a2, b: b2 }) => a1 == a2 && b1
                == b2,
            _ => false,
        }
    }

    /// The sum of two points by the group law, or `DifferentCurves` if their
    /// coefficients differ. The identity is looked for first, then the
    /// mirror image, then the tangent rule and the chord rule.
    pub fn add(&self, other: &Point) -> (r: Result<Point, PointError>)
        requires
            self.wf(),
            other.wf(),
        ensures
            !same_curve(self@, other@) ==> r == Err::<Point, PointError>(
                PointError::DifferentCurves,
            ),
            same_curve(self@, other@) ==> r is Ok && r->Ok_0@ == curve_add(self@, other@)
                && r->Ok_0.wf(),
    {
        if *self.a() != *other.a() || *self.b() != *other.b() {
            return Err(PointError::DifferentCurves);
        }
        match (self, other) {
            (Point::Infinity { .. }, _) => Ok(self.add_identity(other)),
            (_, Point::Infinity { .. }) => Ok(self.add_identity(other)),
            (Point::Finite { .. }, Point::Finite { .. }) => {
                if self.is_inverse_of(other) {
                    Ok(self.add_inverse_points(other))
                } else if self.is_same_point(other) {
                    self.point_doubling()
                } else {
                    self.add_different_points(other)
                }
            },
        }
    }

    /// The multiple `coef * self` for a non-negative `coef`, by double-and-add
    /// over the bits of `coef` from the lowest upwards. Zero gives the
    /// identity.
    pub fn scalar_mul(&self, coef: &Integer) -> (r: Result<Point, PointError>)
        requires
            self.wf(),
            coef@ >= 0,
        ensures
            r is Ok,
            r->Ok_0@ == scalar_multiple(coef@ as nat, self@),
            r->Ok_0.wf(),
    {
        let mut k = coef.clone();
        let mut current = self.clone();
        let mut res = Point::Infinity { a: self.a().clone(), b: self.b().clone() };
        let zero = Integer::from_i64(0);
        while zero.lt(&k)
            invariant
                zero@ == 0,
                k@ >= 0,
                current.wf(),
                res.wf(),
                same_curve(res@, current@),
                double_and_add(k@ as nat, res@, current@) == scalar_multiple(coef@ as nat, self@),
            decreases k@,
        {
            if k.is_odd() {
                res = res.add(&current)?;
            }
            current = current.add(&current)?;
            k = k.half();
        }
        Ok(res)
    }

    /// The text of the point.
    pub fn to_text(&self) -> (r: String)
        ensures
            r@ == point_text(self@),
    {
        match self {
            Point::Finite { x, y, a, b } => {
                let mut text = String::from_str("(");
                text.append(x.to_text().as_str());
                text.append(", ");
                text.append(y.to_text().as_str());
                text.append(") on y² = x³ + ");
                text.append(a.to_text().as_str());
                text.append("x + ");
                text.append(b.to_text().as_str());
                text
            },
            Point::Infinity { a, b } => {
                let mut text = String::from_str("O on y² = x³ + ");
                text.append(a.to_text().as_str());
                text.append("x + ");
                text.append(b.to_text().as_str());
                text
            },
        }
    }
}

/// The mirror image of a point: the same first coordinate, the negated
/// second one. The identity is its own mirror image.
pub open spec fn mirror(p: PointValue) -> PointValue {
    match p {
        PointValue::Infinity { .. } => p,
        PointValue::Finite { x, y, a, b } => PointValue::Finite {
            x,
            y: residue_of(-y.value, y.modulus),
            a,
            b,
        },
    }
}

/// The identity of its curve is neutral: added to a finite point, on either
/// side, it gives that point.
pub proof fn law_identity(p: PointValue)
    requires
        p is Finite,
    ensures
        curve_add(p, p.identity()) == p,
        curve_add(p.identity(), p) == p,
{
}

/// A finite point `(x, y)` and its mirror image `(x, -y)` add up to the
/// identity of their curve. Left out are the points with `2 * y == p`, which
/// an odd modulus does not have: such a point is its own mirror image, its
/// second coordinate is not zero, and the tangent rule applies to it.
pub proof fn law_inverse(p: PointValue)
    requires
        p.wf(),
        p matches PointValue::Finite { y, .. } && 2 * y.value != y.modulus,
    ensures
        curve_add(p, mirror(p)) == p.identity(),
        mirror(p).wf(),
{
    let y = p->Finite_y;
    let n = y.modulus;
    if y.value == 0 {
        assert((-y.value) % n == 0) by {
            vstd::arithmetic::div_mod::lemma_small_mod(0, n as nat);
        }
        assert(mirror(p) == p);
    } else {
        assert((-y.value) % n == n - y.value) by {
            vstd::arithmetic::div_mod::lemma_mod_add_multiples_vanish(-y.value, n);
            vstd::arithmetic::div_mod::lemma_small_mod((n - y.value) as nat, n as nat);
        }
        assert(are_inverse(p, mirror(p)));
    }
}

/// The mirror image of a finite point satisfies the equation of the curve
/// where the point does, since only an even power of the second coordinate
/// enters.
pub proof fn lemma_mirror_on_curve(p: PointValue)
    requires
        p.wf(),
        p.on_curve(),
        p is Finite,
    ensures
        mirror(p).on_curve(),
{
    let y = p->Finite_y;
    let n = y.modulus;
    let m = residue_of(-y.value, n);
    let e = crate::arithmetic::field::reduced_exponent(2, n);
    vstd::arithmetic::div_mod::lemma_mod_bound(2, n - 1);
    if n - 1 > 2 {
        vstd::arithmetic::div_mod::lemma_small_mod(2, (n - 1) as nat);
    } else if n - 1 == 2 {
        vstd::arithmetic::div_mod::lemma_mod_self_0(2);
    } else {
        assert(2int % 1 == 0);
    }
    assert(e == 0 || e == 2);
    if e == 0 {
        vstd::arithmetic::power::lemma_pow0(m.value);
        vstd::arithmetic::power::lemma_pow0(y.value);
    } else {
        vstd::arithmetic::power::lemma_pow_mod_noop(-y.value, 2, n);
        vstd::arithmetic::power::lemma_square_is_pow2(-y.value);
        vstd::arithmetic::power::lemma_square_is_pow2(y.value);
        assert((-y.value) * (-y.value) == y.value * y.value) by (nonlinear_arith);
    }
    assert(field_pow(m, 2) == field_pow(y, 2));
}

} // verus!
