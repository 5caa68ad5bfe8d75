//! What the numerals are worth.
//!
//! The parsers keep numerals as they were written; this module says which
//! numbers they stand for, as fractions of integers, and what follows for
//! lengths and for the places of gradient stops. Nothing here is computed
//! when the library runs.

use vstd::prelude::*;
use crate::offset::{
    lemma_run_bounds, lemma_run_is_maximal, normalized, placed, run_end, run_start, AnchorPoint,
    Position,
};
use crate::direction::{AngleMeasure, AngleUnit};
use crate::length::{is_unsigned, Length, PixelAmount};
use crate::number::{
    fraction_end, integer_end, is_float_literal, is_number_from, lemma_digits_end_bounds,
    sign_len,
};
use crate::text::is_digit;

verus! {

/// A fraction of two integers.
pub ghost struct Ratio {
    pub num: int,
    pub den: int,
}

impl Ratio {
    /// Whether the fraction is a number: its denominator is above zero.
    pub open spec fn well_formed(self) -> bool {
        self.den > 0
    }

    /// The whole number `n`.
    pub open spec fn whole(n: int) -> Ratio {
        Ratio { num: n, den: 1 }
    }

    /// Whether this is at most `other`.
    pub open spec fn le(self, other: Ratio) -> bool {
        self.num * other.den <= other.num * self.den
    }

    /// Whether this is the same number as `other`.
    pub open spec fn same(self, other: Ratio) -> bool {
        self.num * other.den == other.num * self.den
    }

    /// This, `k` times.
    pub open spec fn times(self, k: int) -> Ratio {
        Ratio { num: self.num * k, den: self.den }
    }

    /// The `k`th part of this.
    pub open spec fn over(self, k: int) -> Ratio {
        Ratio { num: self.num, den: self.den * k }
    }

    /// The point `step` of `steps` equal steps on the way from this to `to`:
    /// `self + (to - self) * step / steps`.
    pub open spec fn towards(self, to: Ratio, step: int, steps: int) -> Ratio {
        Ratio {
            num: self.num * to.den * (steps - step) + to.num * self.den * step,
            den: self.den * to.den * steps,
        }
    }
}

/// Ten to the power of `n`.
pub open spec fn pow10(n: nat) -> int
    decreases n,
{
    if n == 0 {
        1
    } else {
        10 * pow10((n - 1) as nat)
    }
}

/// The number that the digits of `s` from index `from` up to index `to`
/// spell.
pub open spec fn digits_value(s: Seq<char>, from: int, to: int) -> int
    decreases to - from,
{
    if to <= from {
        0
    } else {
        10 * digits_value(s, from, to - 1) + (s[to - 1] as int - '0' as int)
    }
}

/// Whether `s` is a well-formed numeral that spells a number, not one of the
/// words for infinity or the word for "not a number".
pub open spec fn is_finite_literal(s: Seq<char>) -> bool {
    is_number_from(s, sign_len(s, 0))
}

/// How many digits the numeral `s` has after its point.
pub open spec fn fraction_digits(s: Seq<char>) -> nat {
    let a = integer_end(s, sign_len(s, 0));
    let b = fraction_end(s, sign_len(s, 0));
    if b > a {
        (b - a - 1) as nat
    } else {
        0
    }
}

/// The number that the digits of the numeral `s` spell, the point left out
/// and sign and exponent not counted.
pub open spec fn mantissa(s: Seq<char>) -> int {
    let start = sign_len(s, 0);
    let a = integer_end(s, start);
    let b = fraction_end(s, start);
    if b > a {
        digits_value(s, start, a) * pow10(fraction_digits(s)) + digits_value(s, a + 1, b)
    } else {
        digits_value(s, start, a)
    }
}

/// The exponent of the numeral `s`: what follows its `e`, or 0 if it has
/// none.
pub open spec fn exponent(s: Seq<char>) -> int {
    let b = fraction_end(s, sign_len(s, 0));
    if b < s.len() {
        let digits = digits_value(s, b + 1 + sign_len(s, b + 1), s.len() as int);
        if s[b + 1] == '-' {
            -digits
        } else {
            digits
        }
    } else {
        0
    }
}

/// The number that the numeral `s` stands for, where it spells a number:
/// its mantissa, moved by as many places as its fraction has digits and as
/// its exponent says, with its sign.
pub open spec fn numeral_value(s: Seq<char>) -> Ratio {
    let signed = if s.len() > 0 && s[0] == '-' {
        -mantissa(s)
    } else {
        mantissa(s)
    };
    if exponent(s) >= 0 {
        Ratio { num: signed * pow10(exponent(s) as nat), den: pow10(fraction_digits(s)) }
    } else {
        Ratio { num: signed, den: pow10(fraction_digits(s)) * pow10((-exponent(s)) as nat) }
    }
}

impl PixelAmount {
    /// The amount of pixels as a number: what the numeral stands for, times
    /// the scale.
    pub open spec fn value(self) -> Ratio {
        numeral_value(self.number).times(self.scale as int)
    }
}

impl Length {
    /// The length as a number of its unit.
    pub open spec fn value(self) -> Ratio {
        numeral_value(self.number)
    }
}

impl AngleMeasure {
    /// The angle in degrees, where that is a fraction of integers: its
    /// number for degrees, and 360 of 400 parts of its number for gradians.
    /// An angle in radians is its number times 180 and divided by pi, which
    /// is no such fraction.
    pub open spec fn degrees(self) -> Option<Ratio> {
        match self.unit {
            AngleUnit::Deg => Some(numeral_value(self.number)),
            AngleUnit::Grad => Some(numeral_value(self.number).times(360).over(400)),
            AngleUnit::Rad => None,
        }
    }
}

impl AnchorPoint {
    /// The anchor as a fraction of the line: 0 for its start, 1 for its end,
    /// a hundredth of its number for a percentage.
    pub open spec fn value(self) -> Ratio {
        match self {
            AnchorPoint::Start => Ratio::whole(0),
            AnchorPoint::End => Ratio::whole(1),
            AnchorPoint::Percent(p) => numeral_value(p).over(100),
        }
    }

    /// Whether the anchor is a number.
    pub open spec fn is_finite(self) -> bool {
        match self {
            AnchorPoint::Percent(p) => is_finite_literal(p),
            _ => true,
        }
    }
}

impl Position {
    /// The position as a fraction of the line:
    /// `from + (to - from) * step / steps`.
    pub open spec fn value(self) -> Ratio {
        self.from.value().towards(self.to.value(), self.step as int, self.steps as int)
    }

    /// Whether the position is a number: it counts its steps properly, and
    /// both its anchors are numbers.
    pub open spec fn is_finite(self) -> bool {
        self.well_formed() && self.from.is_finite() && self.to.is_finite()
    }
}

/// A power of ten is 1 at least.
pub proof fn lemma_pow10_positive(n: nat)
    ensures
        pow10(n) >= 1,
    decreases n,
{
    if n > 0 {
        lemma_pow10_positive((n - 1) as nat);
    }
}

/// A run of digits spells a number that is not below zero.
pub proof fn lemma_digits_value_nonnegative(s: Seq<char>, from: int, to: int)
    requires
        0 <= from <= to <= s.len(),
        forall|k: int| from <= k < to ==> is_digit(#[trigger] s[k]),
    ensures
        digits_value(s, from, to) >= 0,
    decreases to - from,
{
    if to > from {
        lemma_digits_value_nonnegative(s, from, to - 1);
    }
}

/// A numeral that spells a number stands for a fraction that is a number;
/// it is not below zero unless the numeral starts with a minus sign.
pub proof fn lemma_numeral_value(s: Seq<char>)
    requires
        is_finite_literal(s),
    ensures
        numeral_value(s).well_formed(),
        mantissa(s) >= 0,
        !(s.len() > 0 && s[0] == '-') ==> numeral_value(s).num >= 0,
{
    let start = sign_len(s, 0);
    let a = integer_end(s, start);
    lemma_digits_end_bounds(s, start);
    lemma_digits_value_nonnegative(s, start, a);
    let b = fraction_end(s, start);
    if a < s.len() && s[a] == '.' {
        lemma_digits_end_bounds(s, a + 1);
        lemma_digits_value_nonnegative(s, a + 1, b);
    }
    lemma_pow10_positive(fraction_digits(s));
    let e = exponent(s);
    if e >= 0 {
        lemma_pow10_positive(e as nat);
        assert(mantissa(s) * pow10(e as nat) >= 0) by (nonlinear_arith)
            requires
                mantissa(s) >= 0,
                pow10(e as nat) >= 1,
        ;
    } else {
        lemma_pow10_positive((-e) as nat);
        assert(pow10(fraction_digits(s)) * pow10((-e) as nat) > 0) by (nonlinear_arith)
            requires
                pow10(fraction_digits(s)) >= 1,
                pow10((-e) as nat) >= 1,
        ;
    }
    assert(digits_value(s, start, a) * pow10(fraction_digits(s)) >= 0) by (nonlinear_arith)
        requires
            digits_value(s, start, a) >= 0,
            pow10(fraction_digits(s)) >= 1,
    ;
}

/// A numeral of digits and points only has no sign and no exponent.
pub proof fn lemma_unsigned_is_finite(s: Seq<char>)
    requires
        is_unsigned(s),
        is_float_literal(s),
    ensures
        is_finite_literal(s),
        sign_len(s, 0) == 0,
        numeral_value(s).well_formed(),
        numeral_value(s).num >= 0,
{
    lemma_digits_end_bounds(s, 0);
    if s.len() > 0 {
        assert(is_digit(s[0]) || s[0] == '.');
    }
    if s.len() == 3 {
        assert(is_digit(s[0int + 0int]) || s[0int + 0int] == '.');
    }
    if s.len() == 8 {
        assert(is_digit(s[0int + 0int]) || s[0int + 0int] == '.');
    }
    lemma_numeral_value(s);
}

/// No length is below zero, and neither is its amount of pixels; an `em` is
/// 16 pixels.
pub proof fn lemma_length_value(l: Length)
    requires
        is_unsigned(l.number),
        is_float_literal(l.number),
    ensures
        l.value().well_formed(),
        l.value().num >= 0,
        l.to_pixels().value().well_formed(),
        l.to_pixels().value().num >= 0,
        l.to_pixels().value() == l.value().times(l.metric.pixels_per_unit() as int),
{
    lemma_unsigned_is_finite(l.number);
    let v = l.value();
    let k = l.metric.pixels_per_unit() as int;
    assert(v.num * k >= 0) by (nonlinear_arith)
        requires
            v.num >= 0,
            k >= 1,
    ;
}

/// A plain amount of pixels is a number, and not below zero: no radius, no
/// width, no blur and no spread that the parsers give is negative.
pub proof fn lemma_plain_amount_value(p: PixelAmount)
    requires
        is_unsigned(p.number),
        is_float_literal(p.number),
    ensures
        p.value().well_formed(),
        p.value().num >= 0,
{
    lemma_unsigned_is_finite(p.number);
    let v = numeral_value(p.number);
    let k = p.scale as int;
    assert(v.num * k >= 0) by (nonlinear_arith)
        requires
            v.num >= 0,
            k >= 0,
    ;
}

/// A stop at a percentage lies at the hundredth part of its number.
pub proof fn lemma_percentage_value(p: Seq<char>)
    requires
        is_finite_literal(p),
    ensures
        Position::at(p).is_finite(),
        Position::at(p).value().well_formed(),
        Position::at(p).value().same(numeral_value(p).over(100)),
{
    lemma_numeral_value(p);
    let x = numeral_value(p).over(100);
    lemma_towards(x, x, 0, 1);
}

/// Being at most is transitive among fractions that are numbers.
pub proof fn lemma_le_transitive(a: Ratio, b: Ratio, c: Ratio)
    requires
        a.well_formed(),
        b.well_formed(),
        c.well_formed(),
        a.le(b),
        b.le(c),
    ensures
        a.le(c),
{
    assert(a.num * c.den <= c.num * a.den) by (nonlinear_arith)
        requires
            a.den > 0,
            b.den > 0,
            c.den > 0,
            a.num * b.den <= b.num * a.den,
            b.num * c.den <= c.num * b.den,
    {
        assert(a.num * b.den * c.den <= b.num * a.den * c.den);
        assert(b.num * c.den * a.den <= c.num * b.den * a.den);
        assert(a.num * c.den * b.den <= c.num * a.den * b.den);
    }
}

/// A point on the way from one number to another that is not below it lies
/// between the two: at the first before any step is taken, at the second
/// when all are taken, and further along with every step.
pub proof fn lemma_towards(from: Ratio, to: Ratio, step: int, steps: int)
    requires
        from.well_formed(),
        to.well_formed(),
        from.le(to),
        0 <= step <= steps,
        1 <= steps,
    ensures
        from.towards(to, step, steps).well_formed(),
        from.le(from.towards(to, step, steps)),
        from.towards(to, step, steps).le(to),
        step == 0 ==> from.towards(to, step, steps).same(from),
        step == steps ==> from.towards(to, step, steps).same(to),
        step < steps ==> from.towards(to, step, steps).le(from.towards(to, step + 1, steps)),
{
    let a = from.num * to.den;
    let b = to.num * from.den;
    let v = from.towards(to, step, steps);
    assert(v.den > 0) by (nonlinear_arith)
        requires
            v.den == from.den * to.den * steps,
            from.den > 0,
            to.den > 0,
            steps >= 1,
    ;
    assert(v.num == a * (steps - step) + b * step);
    assert(a <= b);
    // from <= v
    assert(from.num * v.den <= v.num * from.den) by (nonlinear_arith)
        requires
            a == from.num * to.den,
            v.den == from.den * to.den * steps,
            v.num == a * (steps - step) + b * step,
            a <= b,
            0 <= step <= steps,
            from.den > 0,
    {
        assert(a * step <= b * step);
        assert(a * steps <= a * (steps - step) + b * step);
        assert(a * steps * from.den <= (a * (steps - step) + b * step) * from.den);
        assert(from.num * (from.den * to.den * steps) == a * steps * from.den);
    }
    // v <= to
    assert(v.num * to.den <= to.num * v.den) by (nonlinear_arith)
        requires
            b == to.num * from.den,
            v.den == from.den * to.den * steps,
            v.num == a * (steps - step) + b * step,
            a <= b,
            0 <= step <= steps,
            to.den > 0,
    {
        assert(a * (steps - step) <= b * (steps - step));
        assert(a * (steps - step) + b * step <= b * steps);
        assert((a * (steps - step) + b * step) * to.den <= b * steps * to.den);
        assert(to.num * (from.den * to.den * steps) == b * steps * to.den);
    }
    if step == 0 {
        assert(v.num * from.den == from.num * v.den) by (nonlinear_arith)
            requires
                step == 0,
                v.num == from.num * to.den * (steps - step) + to.num * from.den * step,
                v.den == from.den * to.den * steps,
        ;
    }
    if step == steps {
        assert(v.num * to.den == to.num * v.den) by (nonlinear_arith)
            requires
                step == steps,
                v.num == from.num * to.den * (steps - step) + to.num * from.den * step,
                v.den == from.den * to.den * steps,
        ;
    }
    if step < steps {
        let w = from.towards(to, step + 1, steps);
        assert(v.num * w.den <= w.num * v.den) by (nonlinear_arith)
            requires
                v.num == a * (steps - step) + b * step,
                w.num == a * (steps - step - 1) + b * (step + 1),
                w.den == v.den,
                v.den > 0,
                a <= b,
        {
            assert(w.num - v.num == b - a);
            assert(v.num <= w.num);
            assert(v.num * v.den <= w.num * v.den);
        }
    }
}

/// A point on the way from one number to another lies within every range
/// that holds the two.
pub proof fn lemma_towards_within(from: Ratio, to: Ratio, step: int, steps: int, low: Ratio, high: Ratio)
    requires
        from.well_formed(),
        to.well_formed(),
        low.well_formed(),
        high.well_formed(),
        low.le(from),
        low.le(to),
        from.le(high),
        to.le(high),
        0 <= step <= steps,
        1 <= steps,
    ensures
        from.towards(to, step, steps).well_formed(),
        low.le(from.towards(to, step, steps)),
        from.towards(to, step, steps).le(high),
{
    let v = from.towards(to, step, steps);
    if from.le(to) {
        lemma_towards(from, to, step, steps);
        lemma_le_transitive(low, from, v);
        lemma_le_transitive(v, to, high);
    } else {
        let w = to.towards(from, steps - step, steps);
        assert(w == v) by {
            assert(to.den * from.den == from.den * to.den) by (nonlinear_arith);
            assert(steps - (steps - step) == step);
        }
        lemma_towards(to, from, steps - step, steps);
        lemma_le_transitive(low, to, v);
        lemma_le_transitive(v, from, high);
    }
}

/// Whether the fraction lies on the line: between 0 and 1.
pub open spec fn is_on_line(r: Ratio) -> bool {
    r.well_formed() && Ratio::whole(0).le(r) && r.le(Ratio::whole(1))
}

/// Whether every percentage that was written is a number between 0 and 100.
pub open spec fn percentages_on_line(given: Seq<Option<Seq<char>>>) -> bool {
    forall|i: int|
        0 <= i < given.len() && (#[trigger] given[i]) is Some ==> is_finite_literal(given[i]->0)
            && is_on_line(AnchorPoint::Percent(given[i]->0).value())
}

/// Whether the percentages that were written do not fall from one stop to a
/// later one.
pub open spec fn percentages_ascending(given: Seq<Option<Seq<char>>>) -> bool {
    forall|i: int, j: int|
        0 <= i < j < given.len() && (#[trigger] given[i]) is Some && (#[trigger] given[j]) is Some
            ==> AnchorPoint::Percent(given[i]->0).value().le(
            AnchorPoint::Percent(given[j]->0).value(),
        )
}

/// The anchors of every place lie on the line, if the percentages that were
/// written do.
pub proof fn lemma_anchors_on_line(given: Seq<Option<Seq<char>>>, i: int)
    requires
        0 <= i < given.len(),
        percentages_on_line(given),
    ensures
        placed(given, i).well_formed(),
        is_on_line(placed(given, i).from.value()),
        is_on_line(placed(given, i).to.value()),
{
    if given[i] is None {
        lemma_run_is_maximal(given, i);
        let a = run_start(given, i);
        let b = run_end(given, i);
        if a > 0 {
            assert(given[a - 1] is Some);
        }
        if b < given.len() {
            assert(given[b] is Some);
        }
    }
}

/// Every stop comes to lie on the line, between 0 and 1, if the percentages
/// that were written are numbers between 0 and 100.
pub proof fn lemma_normalized_on_line(given: Seq<Option<Seq<char>>>, i: int)
    requires
        0 <= i < given.len(),
        percentages_on_line(given),
    ensures
        is_on_line(normalized(given)[i].value()),
{
    lemma_anchors_on_line(given, i);
    let p = placed(given, i);
    lemma_towards_within(
        p.from.value(),
        p.to.value(),
        p.step as int,
        p.steps as int,
        Ratio::whole(0),
        Ratio::whole(1),
    );
}

/// The anchors of every place are in order, and the place lies between
/// them, if the percentages that were written lie on the line and do not
/// fall.
pub proof fn lemma_placed_between_anchors(given: Seq<Option<Seq<char>>>, i: int)
    requires
        0 <= i < given.len(),
        percentages_on_line(given),
        percentages_ascending(given),
    ensures
        placed(given, i).value().well_formed(),
        placed(given, i).from.value().well_formed(),
        placed(given, i).to.value().well_formed(),
        placed(given, i).from.value().le(placed(given, i).to.value()),
        placed(given, i).from.value().le(placed(given, i).value()),
        placed(given, i).value().le(placed(given, i).to.value()),
{
    lemma_anchors_on_line(given, i);
    let p = placed(given, i);
    if given[i] is None {
        lemma_run_is_maximal(given, i);
        let a = run_start(given, i);
        let b = run_end(given, i);
        if a > 0 && b < given.len() {
            assert(given[a - 1] is Some);
            assert(given[b] is Some);
        }
    }
    lemma_towards(p.from.value(), p.to.value(), p.step as int, p.steps as int);
}

/// No stop comes to lie before the stop that precedes it, if the
/// percentages that were written lie on the line and do not fall.
pub proof fn lemma_normalized_step(given: Seq<Option<Seq<char>>>, i: int)
    requires
        0 <= i,
        i + 1 < given.len(),
        percentages_on_line(given),
        percentages_ascending(given),
    ensures
        normalized(given)[i].value().le(normalized(given)[i + 1].value()),
{
    let p = placed(given, i);
    let q = placed(given, i + 1);
    lemma_placed_between_anchors(given, i);
    lemma_placed_between_anchors(given, i + 1);
    if given[i] is None && given[i + 1] is None {
        lemma_run_is_maximal(given, i);
        let a = run_start(given, i);
        let b = run_end(given, i);
        lemma_run_bounds(given, a, b, i + 1);
        assert(q.from == p.from && q.to == p.to && q.steps == p.steps);
        assert(q.step == p.step + 1);
        lemma_towards(p.from.value(), p.to.value(), p.step as int, p.steps as int);
    } else {
        // The second anchor of the one stop is at most the first anchor of
        // the other.
        if given[i] is Some && given[i + 1] is None {
            lemma_run_is_maximal(given, i + 1);
            lemma_run_bounds(given, i + 1, run_end(given, i + 1), i + 1);
            assert(q.from == p.to);
        } else if given[i] is None && given[i + 1] is Some {
            lemma_run_is_maximal(given, i);
            lemma_run_bounds(given, run_start(given, i), i + 1, i);
            assert(p.to == q.from);
        } else {
            assert(p.to.value().le(q.from.value()));
        }
        lemma_le_transitive(p.value(), p.to.value(), q.from.value());
        lemma_le_transitive(p.value(), q.from.value(), q.value());
    }
}

/// The stops come to lie in their order: none lies before an earlier one, if
/// the percentages that were written lie on the line and do not fall.
pub proof fn lemma_normalized_ascending(given: Seq<Option<Seq<char>>>, i: int, j: int)
    requires
        0 <= i <= j < given.len(),
        percentages_on_line(given),
        percentages_ascending(given),
    ensures
        normalized(given)[i].value().le(normalized(given)[j].value()),
    decreases j - i,
{
    lemma_placed_between_anchors(given, i);
    if i == j {
        let v = placed(given, i).value();
        assert(v.le(v));
    } else {
        lemma_normalized_ascending(given, i, j - 1);
        lemma_normalized_step(given, j - 1);
        lemma_placed_between_anchors(given, j - 1);
        lemma_placed_between_anchors(given, j);
        lemma_le_transitive(
            placed(given, i).value(),
            placed(given, j - 1).value(),
            placed(given, j).value(),
        );
    }
}

} // verus!
