//! Laws that the arithmetic of a scalar type may obey.
//!
//! The tracer asks for none of them. Each is a statement about a scalar type
//! as a whole, to be named as a premise by whoever reasons about the geometry.
use crate::scalar::Scalar;
use vstd::prelude::*;

verus! {

/// Negation mirrors the arithmetic and the order: it moves out of a product
/// and out of a sum, what is below zero is at most zero, and what is not below
/// zero has a negation that is at most zero.
pub open spec fn spec_negation_mirrors<T: Scalar>() -> bool {
    &&& forall|a: T, b: T| #[trigger] a.times(b.negated()) == a.times(b).negated()
    &&& forall|a: T, b: T| #[trigger] a.negated().plus(b.negated()) == a.plus(b).negated()
    &&& forall|a: T| #[trigger] a.below(T::whole(0)) ==> a.at_most(T::whole(0))
    &&& forall|a: T| a.below(T::whole(0)) || #[trigger] a.negated().at_most(T::whole(0))
}

/// Below and at most fit together: of two scalars at most one is below the
/// other, and one that is not below the other is at least the other.
pub open spec fn spec_strict_order<T: Scalar>() -> bool {
    &&& forall|a: T, b: T| #[trigger] a.below(b) ==> !b.below(a)
    &&& forall|a: T, b: T| #[trigger] a.below(b) || b.at_most(a)
}

/// The order is total: every scalar is at most itself, of two scalars one is
/// at most the other, and what is at most a scalar is at most everything that
/// scalar is at most.
#[verifier::opaque]
pub open spec fn spec_total_order<T: Scalar>() -> bool {
    &&& forall|a: T| #[trigger] a.at_most(a)
    &&& forall|a: T, b: T| #[trigger] a.at_most(b) || b.at_most(a)
    &&& forall|a: T, b: T, c: T|
        #[trigger] a.at_most(b) && #[trigger] b.at_most(c) ==> a.at_most(c)
}

/// Under a total order, a scalar is at most itself.
pub proof fn lemma_at_most_itself<T: Scalar>(a: T)
    requires
        spec_total_order::<T>(),
    ensures
        a.at_most(a),
{
    reveal(spec_total_order);
}

/// Under a total order, of two scalars one is at most the other.
pub proof fn lemma_one_is_at_most<T: Scalar>(a: T, b: T)
    requires
        spec_total_order::<T>(),
    ensures
        a.at_most(b) || b.at_most(a),
{
    reveal(spec_total_order);
}

/// Under a total order, `a <= b` and `b <= c` give `a <= c`.
pub proof fn lemma_at_most_chains<T: Scalar>(a: T, b: T, c: T)
    requires
        spec_total_order::<T>(),
        a.at_most(b),
        b.at_most(c),
    ensures
        a.at_most(c),
{
    reveal(spec_total_order);
}

/// The arithmetic is that of a commutative ring: sums and products are
/// commutative and associative, zero and one are neutral, every scalar has a
/// negative, a difference is a sum with the negative, products distribute
/// over sums, and two is one plus one.
#[verifier::opaque]
pub open spec fn spec_ring<T: Scalar>() -> bool {
    &&& forall|a: T, b: T| #[trigger] a.plus(b) == b.plus(a)
    &&& forall|a: T, b: T, c: T| #[trigger] a.plus(b).plus(c) == a.plus(b.plus(c))
    &&& forall|a: T| #[trigger] a.plus(T::whole(0)) == a
    &&& forall|a: T| #[trigger] a.plus(a.negated()) == T::whole(0)
    &&& forall|a: T, b: T| #[trigger] a.minus(b) == a.plus(b.negated())
    &&& forall|a: T, b: T| #[trigger] a.times(b) == b.times(a)
    &&& forall|a: T, b: T, c: T| #[trigger] a.times(b).times(c) == a.times(b.times(c))
    &&& forall|a: T| #[trigger] a.times(T::whole(1)) == a
    &&& forall|a: T, b: T, c: T| #[trigger] a.times(b.plus(c)) == a.times(b).plus(a.times(c))
    &&& T::whole(2) == T::whole(1).plus(T::whole(1))
}

/// In a ring, `a + b = b + a`.
pub proof fn lemma_plus_commutes<T: Scalar>(a: T, b: T)
    requires
        spec_ring::<T>(),
    ensures
        a.plus(b) == b.plus(a),
{
    reveal(spec_ring);
}

/// In a ring, `(a + b) + c = a + (b + c)`.
pub proof fn lemma_plus_associates<T: Scalar>(a: T, b: T, c: T)
    requires
        spec_ring::<T>(),
    ensures
        a.plus(b).plus(c) == a.plus(b.plus(c)),
{
    reveal(spec_ring);
}

/// In a ring, zero is neutral on either side of a sum.
pub proof fn lemma_plus_zero<T: Scalar>(a: T)
    requires
        spec_ring::<T>(),
    ensures
        a.plus(T::whole(0)) == a,
        T::whole(0).plus(a) == a,
{
    reveal(spec_ring);
}

/// In a ring, a scalar and its negative sum to zero, in either order.
pub proof fn lemma_plus_negative<T: Scalar>(a: T)
    requires
        spec_ring::<T>(),
    ensures
        a.plus(a.negated()) == T::whole(0),
        a.negated().plus(a) == T::whole(0),
{
    reveal(spec_ring);
}

/// In a ring, `a - b = a + -b`.
pub proof fn lemma_minus<T: Scalar>(a: T, b: T)
    requires
        spec_ring::<T>(),
    ensures
        a.minus(b) == a.plus(b.negated()),
{
    reveal(spec_ring);
}

/// In a ring, `a * b = b * a`.
pub proof fn lemma_times_commutes<T: Scalar>(a: T, b: T)
    requires
        spec_ring::<T>(),
    ensures
        a.times(b) == b.times(a),
{
    reveal(spec_ring);
}

/// In a ring, `(a * b) * c = a * (b * c)`.
pub proof fn lemma_times_associates<T: Scalar>(a: T, b: T, c: T)
    requires
        spec_ring::<T>(),
    ensures
        a.times(b).times(c) == a.times(b.times(c)),
{
    reveal(spec_ring);
}

/// In a ring, `a * 1 = a`.
pub proof fn lemma_times_one<T: Scalar>(a: T)
    requires
        spec_ring::<T>(),
    ensures
        a.times(T::whole(1)) == a,
{
    reveal(spec_ring);
}

/// In a ring, `a * (b + c) = a * b + a * c`.
pub proof fn lemma_distributes<T: Scalar>(a: T, b: T, c: T)
    requires
        spec_ring::<T>(),
    ensures
        a.times(b.plus(c)) == a.times(b).plus(a.times(c)),
{
    reveal(spec_ring);
}

/// In a ring, two is one plus one.
pub proof fn lemma_two<T: Scalar>()
    requires
        spec_ring::<T>(),
    ensures
        T::whole(2) == T::whole(1).plus(T::whole(1)),
{
    reveal(spec_ring);
}

/// In a ring, what leaves a scalar unchanged when added to it is zero.
pub proof fn lemma_cancel<T: Scalar>(a: T, b: T)
    requires
        spec_ring::<T>(),
        a.plus(b) == a,
    ensures
        b == T::whole(0),
{
    // b = 0 + b = (-a + a) + b = -a + (a + b) = -a + a = 0
    lemma_plus_zero(b);
    lemma_plus_negative(a);
    lemma_plus_associates(a.negated(), a, b);
}

/// In a ring, the negative of a scalar is the one scalar that sums with it to
/// zero.
pub proof fn lemma_negative_is_unique<T: Scalar>(a: T, b: T)
    requires
        spec_ring::<T>(),
        a.plus(b) == T::whole(0),
    ensures
        b == a.negated(),
{
    // b = 0 + b = (-a + a) + b = -a + (a + b) = -a + 0 = -a
    lemma_plus_zero(b);
    lemma_plus_negative(a);
    lemma_plus_associates(a.negated(), a, b);
    lemma_plus_zero(a.negated());
}

/// In a ring, the negative of the negative of a scalar is that scalar.
pub proof fn lemma_double_negative<T: Scalar>(a: T)
    requires
        spec_ring::<T>(),
    ensures
        a.negated().negated() == a,
{
    lemma_plus_negative(a);
    lemma_negative_is_unique(a.negated(), a);
}

/// In a ring, a product with zero is zero.
pub proof fn lemma_times_zero<T: Scalar>(a: T)
    requires
        spec_ring::<T>(),
    ensures
        a.times(T::whole(0)) == T::whole(0),
{
    let zero = T::whole(0);
    // a * 0 = a * (0 + 0) = a * 0 + a * 0
    lemma_plus_zero(zero);
    lemma_distributes(a, zero, zero);
    lemma_cancel(a.times(zero), a.times(zero));
}

/// In a ring, a product with a negative is the negative of the product.
pub proof fn lemma_times_negated<T: Scalar>(a: T, b: T)
    requires
        spec_ring::<T>(),
    ensures
        a.times(b.negated()) == a.times(b).negated(),
{
    lemma_times_zero(a);
    // a * b + a * -b = a * (b + -b) = a * 0 = 0
    lemma_plus_negative(b);
    lemma_distributes(a, b, b.negated());
    lemma_negative_is_unique(a.times(b), a.times(b.negated()));
}

/// In a ring, a product with a negative on the left is the negative of the
/// product.
pub proof fn lemma_negated_times<T: Scalar>(a: T, b: T)
    requires
        spec_ring::<T>(),
    ensures
        a.negated().times(b) == a.times(b).negated(),
{
    lemma_times_commutes(a.negated(), b);
    lemma_times_negated(b, a);
    lemma_times_commutes(b, a);
}

/// In a ring, a negative has the square of its scalar.
pub proof fn lemma_square_of_negative<T: Scalar>(a: T)
    requires
        spec_ring::<T>(),
    ensures
        a.negated().times(a.negated()) == a.times(a),
{
    lemma_negated_times(a, a.negated());
    lemma_times_negated(a, a);
    lemma_double_negative(a.times(a));
}

/// In a ring, the negative of a sum is the sum of the negatives.
pub proof fn lemma_sum_negated<T: Scalar>(a: T, b: T)
    requires
        spec_ring::<T>(),
    ensures
        a.plus(b).negated() == a.negated().plus(b.negated()),
{
    let na = a.negated();
    let nb = b.negated();
    // (a + b) + (na + nb) = a + (b + (nb + na)) = a + ((b + nb) + na) = a + na = 0
    lemma_plus_associates(a, b, na.plus(nb));
    lemma_plus_commutes(na, nb);
    lemma_plus_associates(b, nb, na);
    lemma_plus_negative(b);
    lemma_plus_zero(na);
    lemma_plus_negative(a);
    lemma_negative_is_unique(a.plus(b), na.plus(nb));
}

/// In a ring, the negatives of three scalars sum to the negative of their sum.
pub proof fn lemma_negated_three<T: Scalar>(a: T, b: T, c: T)
    requires
        spec_ring::<T>(),
    ensures
        a.negated().plus(b.negated()).plus(c.negated()) == a.plus(b).plus(c).negated(),
{
    lemma_sum_negated(a, b);
    lemma_sum_negated(a.plus(b), c);
}

/// In a ring, two sums of three added up term by term.
pub proof fn lemma_sum_of_pairs<T: Scalar>(a: T, b: T, c: T, x: T, y: T, z: T)
    requires
        spec_ring::<T>(),
    ensures
        a.plus(x).plus(b.plus(y)).plus(c.plus(z)) == a.plus(b).plus(c).plus(x.plus(y).plus(z)),
{
    // (a + x) + (b + y) = a + ((x + b) + y) = a + ((b + x) + y) = (a + b) + (x + y)
    lemma_plus_associates(a, x, b.plus(y));
    lemma_plus_associates(x, b, y);
    lemma_plus_commutes(x, b);
    lemma_plus_associates(b, x, y);
    lemma_plus_associates(a, b, x.plus(y));
    let ab = a.plus(b);
    let xy = x.plus(y);
    // (ab + xy) + (c + z) = ab + ((xy + c) + z) = ab + ((c + xy) + z) = (ab + c) + (xy + z)
    lemma_plus_associates(ab, xy, c.plus(z));
    lemma_plus_associates(xy, c, z);
    lemma_plus_commutes(xy, c);
    lemma_plus_associates(c, xy, z);
    lemma_plus_associates(ab, c, xy.plus(z));
}

/// In a ring, a common factor moves out of a sum of three.
pub proof fn lemma_factor_of_three<T: Scalar>(k: T, a: T, b: T, c: T)
    requires
        spec_ring::<T>(),
    ensures
        k.times(a).plus(k.times(b)).plus(k.times(c)) == k.times(a.plus(b).plus(c)),
{
    lemma_distributes(k, a, b);
    lemma_distributes(k, a.plus(b), c);
}

/// In a ring, `o - (o + w) = -w`.
pub proof fn lemma_minus_of_sum<T: Scalar>(o: T, w: T)
    requires
        spec_ring::<T>(),
    ensures
        o.minus(o.plus(w)) == w.negated(),
{
    lemma_minus(o, o.plus(w));
    lemma_sum_negated(o, w);
    lemma_plus_associates(o, o.negated(), w.negated());
    lemma_plus_negative(o);
    lemma_plus_zero(w.negated());
}

/// In a ring, `x - (x - y) = y`.
pub proof fn lemma_minus_of_difference<T: Scalar>(x: T, y: T)
    requires
        spec_ring::<T>(),
    ensures
        x.minus(x.minus(y)) == y,
{
    lemma_minus(x, y);
    lemma_minus_of_sum(x, y.negated());
    lemma_double_negative(y);
}

/// In a ring, `(u * d) * u = d * (u * u)`.
pub proof fn lemma_scaled_component<T: Scalar>(u: T, d: T)
    requires
        spec_ring::<T>(),
    ensures
        u.times(d).times(u) == d.times(u.times(u)),
{
    lemma_times_commutes(u, d);
    lemma_times_associates(d, u, u);
}

/// In a ring, `(u * d) * (u * d) = (d * d) * (u * u)`.
pub proof fn lemma_scaled_square<T: Scalar>(u: T, d: T)
    requires
        spec_ring::<T>(),
    ensures
        u.times(d).times(u.times(d)) == d.times(d).times(u.times(u)),
{
    let uu = u.times(u);
    lemma_times_commutes(u, d);
    lemma_times_associates(d, u, u.times(d));
    lemma_times_associates(u, u, d);
    lemma_times_commutes(uu, d);
    lemma_times_associates(d, d, uu);
}

/// The arithmetic is that of an ordered field with square roots, as far as
/// the statements below need it: a commutative ring in which a quotient by
/// one is the dividend, the reciprocal of a positive scalar times that scalar
/// is one, the root of the square of a scalar that is not negative is that
/// scalar, a positive root squares to what it is the root of, zero is below
/// one, no square is negative, `a` is below `b` exactly where `b - a` is
/// positive, of two scalars at most one is below the other, and what is at
/// most a scalar is below everything that scalar is below.
#[verifier::opaque]
pub open spec fn spec_ordered_field<T: Scalar>() -> bool {
    &&& spec_ring::<T>()
    &&& forall|a: T| #[trigger] a.over(T::whole(1)) == a
    &&& forall|a: T| T::whole(0).below(a) ==> #[trigger] T::whole(1).over(a).times(a) == T::whole(1)
    &&& forall|a: T| T::whole(0).at_most(a) ==> #[trigger] a.times(a).root() == a
    &&& forall|a: T| T::whole(0).below(a.root()) ==> #[trigger] a.root().times(a.root()) == a
    &&& T::whole(0).at_most(T::whole(1))
    &&& T::whole(0).below(T::whole(1))
    &&& forall|a: T| !(#[trigger] a.times(a)).below(T::whole(0))
    &&& forall|a: T, b: T| a.below(b) <==> T::whole(0).below(#[trigger] b.minus(a))
    &&& forall|a: T, b: T| #[trigger] a.below(b) ==> !b.below(a)
    &&& forall|a: T, b: T, c: T|
        #[trigger] a.at_most(b) && #[trigger] b.below(c) ==> a.below(c)
}

/// An ordered field is a ring.
pub proof fn lemma_field_is_ring<T: Scalar>()
    requires
        spec_ordered_field::<T>(),
    ensures
        spec_ring::<T>(),
{
    reveal(spec_ordered_field);
}

/// In an ordered field, `a / 1 = a`.
pub proof fn lemma_over_one<T: Scalar>(a: T)
    requires
        spec_ordered_field::<T>(),
    ensures
        a.over(T::whole(1)) == a,
{
    reveal(spec_ordered_field);
}

/// In an ordered field, `(1 / a) * a = 1` for a positive `a`.
pub proof fn lemma_reciprocal<T: Scalar>(a: T)
    requires
        spec_ordered_field::<T>(),
        T::whole(0).below(a),
    ensures
        T::whole(1).over(a).times(a) == T::whole(1),
{
    reveal(spec_ordered_field);
}

/// In an ordered field, the root of `a * a` is `a` where `a` is not negative.
pub proof fn lemma_root_of_square<T: Scalar>(a: T)
    requires
        spec_ordered_field::<T>(),
        T::whole(0).at_most(a),
    ensures
        a.times(a).root() == a,
{
    reveal(spec_ordered_field);
}

/// In an ordered field, a positive root squares to what it is the root of.
pub proof fn lemma_square_of_root<T: Scalar>(a: T)
    requires
        spec_ordered_field::<T>(),
        T::whole(0).below(a.root()),
    ensures
        a.root().times(a.root()) == a,
{
    reveal(spec_ordered_field);
}

/// In an ordered field, zero is below one.
pub proof fn lemma_zero_below_one<T: Scalar>()
    requires
        spec_ordered_field::<T>(),
    ensures
        T::whole(0).below(T::whole(1)),
{
    reveal(spec_ordered_field);
}

/// In an ordered field, the root of one is one.
pub proof fn lemma_root_of_one<T: Scalar>()
    requires
        spec_ordered_field::<T>(),
    ensures
        T::whole(1).root() == T::whole(1),
{
    reveal(spec_ordered_field);
    reveal(spec_ring);
    assert(T::whole(1).times(T::whole(1)) == T::whole(1));
}

/// In an ordered field, no square is negative.
pub proof fn lemma_square_is_not_negative<T: Scalar>(a: T)
    requires
        spec_ordered_field::<T>(),
    ensures
        !a.times(a).below(T::whole(0)),
{
    reveal(spec_ordered_field);
}

/// In an ordered field, `a < b` exactly where `b - a` is positive.
pub proof fn lemma_below_is_positive_difference<T: Scalar>(a: T, b: T)
    requires
        spec_ordered_field::<T>(),
    ensures
        a.below(b) <==> T::whole(0).below(b.minus(a)),
{
    reveal(spec_ordered_field);
}

/// In an ordered field, `a < b` rules out `b < a`.
pub proof fn lemma_below_one_way<T: Scalar>(a: T, b: T)
    requires
        spec_ordered_field::<T>(),
        a.below(b),
    ensures
        !b.below(a),
{
    reveal(spec_ordered_field);
}

/// In an ordered field, `a <= b` and `b < c` give `a < c`.
pub proof fn lemma_at_most_then_below<T: Scalar>(a: T, b: T, c: T)
    requires
        spec_ordered_field::<T>(),
        a.at_most(b),
        b.below(c),
    ensures
        a.below(c),
{
    reveal(spec_ordered_field);
}

/// In a ring, `(o + a) - (o + b) = a - b`.
pub proof fn lemma_difference_of_sums<T: Scalar>(o: T, a: T, b: T)
    requires
        spec_ring::<T>(),
    ensures
        o.plus(a).minus(o.plus(b)) == a.minus(b),
{
    let no = o.negated();
    let nb = b.negated();
    lemma_minus(o.plus(a), o.plus(b));
    lemma_sum_negated(o, b);
    lemma_plus_commutes(o, a);
    lemma_plus_associates(a, o, no.plus(nb));
    lemma_plus_associates(o, no, nb);
    lemma_plus_negative(o);
    lemma_plus_zero(nb);
    lemma_minus(a, b);
}

/// In a ring, `u * t - u * d = u * (t - d)`.
pub proof fn lemma_distributes_over_difference<T: Scalar>(u: T, t: T, d: T)
    requires
        spec_ring::<T>(),
    ensures
        u.times(t).minus(u.times(d)) == u.times(t.minus(d)),
{
    lemma_minus(u.times(t), u.times(d));
    lemma_times_negated(u, d);
    lemma_distributes(u, t, d.negated());
    lemma_minus(t, d);
}

/// In a ring, `(d - r) - d = -r`.
pub proof fn lemma_difference_taken_back<T: Scalar>(d: T, r: T)
    requires
        spec_ring::<T>(),
    ensures
        d.minus(r).minus(d) == r.negated(),
{
    let nr = r.negated();
    lemma_minus(d, r);
    lemma_minus(d.plus(nr), d);
    lemma_plus_commutes(d, nr);
    lemma_plus_associates(nr, d, d.negated());
    lemma_plus_negative(d);
    lemma_plus_zero(nr);
}

/// In a ring, `(a + b) * (a + b) = (a * a + (a * b + a * b)) + b * b`.
pub proof fn lemma_square_of_sum<T: Scalar>(a: T, b: T)
    requires
        spec_ring::<T>(),
    ensures
        a.plus(b).times(a.plus(b)) == a.times(a).plus(a.times(b).plus(a.times(b))).plus(
            b.times(b),
        ),
{
    let ab = a.times(b);
    lemma_distributes(a.plus(b), a, b);
    lemma_times_commutes(a.plus(b), a);
    lemma_distributes(a, a, b);
    lemma_times_commutes(a.plus(b), b);
    lemma_distributes(b, a, b);
    lemma_times_commutes(b, a);
    lemma_plus_associates(a.times(a).plus(ab), ab, b.times(b));
    lemma_plus_associates(a.times(a), ab, ab);
}

} // verus!
