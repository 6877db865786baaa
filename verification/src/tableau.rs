//! The coefficients of the embedded Runge-Kutta pair of Cash and Karp, as
//! exact rational numbers.
//!
//! The pair has six stages, counted from 0. Stage `s` evaluates the
//! derivative at time `t + node(s) * h` and state
//! `x + h * (coupling(s, 0) * k0 + .. + coupling(s, s - 1) * k(s-1))`. The
//! solution of order five adds `h` times the stage derivatives weighted by
//! `fifth_order_weight`, the one of order four by `fourth_order_weight`;
//! their difference estimates the error of the step.

use vstd::prelude::*;

verus! {

/// Number of stages of the pair.
pub const STAGES: usize = 6;

/// A rational number, numerator over denominator.
#[derive(Clone, Copy, Debug, PartialEq, Eq, Structural)]
pub struct Ratio {
    pub num: i64,
    pub den: i64,
}

/// A rational number as mathematics.
pub struct Fraction {
    pub num: int,
    pub den: int,
}

impl Fraction {
    /// The sum of two fractions, not reduced.
    pub open spec fn plus(self, other: Fraction) -> Fraction {
        Fraction { num: self.num * other.den + other.num * self.den, den: self.den * other.den }
    }

    /// Two fractions with positive denominators stand for the same number.
    pub open spec fn same(self, other: Fraction) -> bool {
        self.num * other.den == other.num * self.den
    }
}

impl View for Ratio {
    type V = Fraction;

    open spec fn view(&self) -> Fraction {
        Fraction { num: self.num as int, den: self.den as int }
    }
}

/// The node of stage `s`: the fraction of the step at which the stage
/// evaluates the derivative.
pub open spec fn node_of(s: int) -> Fraction {
    if s == 1 {
        Fraction { num: 1, den: 5 }
    } else if s == 2 {
        Fraction { num: 3, den: 10 }
    } else if s == 3 {
        Fraction { num: 3, den: 5 }
    } else if s == 4 {
        Fraction { num: 1, den: 1 }
    } else if s == 5 {
        Fraction { num: 7, den: 8 }
    } else {
        Fraction { num: 0, den: 1 }
    }
}

/// The weight that stage `s` gives to the derivative of the earlier stage
/// `j`; zero where `j` is no earlier stage.
pub open spec fn coupling_of(s: int, j: int) -> Fraction {
    if s == 1 && j == 0 {
        Fraction { num: 1, den: 5 }
    } else if s == 2 && j == 0 {
        Fraction { num: 3, den: 40 }
    } else if s == 2 && j == 1 {
        Fraction { num: 9, den: 40 }
    } else if s == 3 && j == 0 {
        Fraction { num: 3, den: 10 }
    } else if s == 3 && j == 1 {
        Fraction { num: -9, den: 10 }
    } else if s == 3 && j == 2 {
        Fraction { num: 6, den: 5 }
    } else if s == 4 && j == 0 {
        Fraction { num: -11, den: 54 }
    } else if s == 4 && j == 1 {
        Fraction { num: 5, den: 2 }
    } else if s == 4 && j == 2 {
        Fraction { num: -70, den: 27 }
    } else if s == 4 && j == 3 {
        Fraction { num: 35, den: 27 }
    } else if s == 5 && j == 0 {
        Fraction { num: 1631, den: 55296 }
    } else if s == 5 && j == 1 {
        Fraction { num: 175, den: 512 }
    } else if s == 5 && j == 2 {
        Fraction { num: 575, den: 13824 }
    } else if s == 5 && j == 3 {
        Fraction { num: 44275, den: 110592 }
    } else if s == 5 && j == 4 {
        Fraction { num: 253, den: 4096 }
    } else {
        Fraction { num: 0, den: 1 }
    }
}

/// The weight of stage `j` in the solution of order five.
pub open spec fn fifth_order_weight_of(j: int) -> Fraction {
    if j == 0 {
        Fraction { num: 37, den: 378 }
    } else if j == 2 {
        Fraction { num: 250, den: 621 }
    } else if j == 3 {
        Fraction { num: 125, den: 594 }
    } else if j == 5 {
        Fraction { num: 512, den: 1771 }
    } else {
        Fraction { num: 0, den: 1 }
    }
}

/// The weight of stage `j` in the solution of order four.
pub open spec fn fourth_order_weight_of(j: int) -> Fraction {
    if j == 0 {
        Fraction { num: 2825, den: 27648 }
    } else if j == 2 {
        Fraction { num: 18575, den: 48384 }
    } else if j == 3 {
        Fraction { num: 13525, den: 55296 }
    } else if j == 4 {
        Fraction { num: 277, den: 14336 }
    } else if j == 5 {
        Fraction { num: 1, den: 4 }
    } else {
        Fraction { num: 0, den: 1 }
    }
}

/// The sum of the weights that stage `s` gives to the first `count`
/// stages.
pub open spec fn coupling_sum(s: int, count: int) -> Fraction
    decreases count,
{
    if count <= 0 {
        Fraction { num: 0, den: 1 }
    } else {
        coupling_sum(s, count - 1).plus(coupling_of(s, count - 1))
    }
}

/// The sum of the weights of the first `count` stages in the solution of
/// order five.
pub open spec fn fifth_order_sum(count: int) -> Fraction
    decreases count,
{
    if count <= 0 {
        Fraction { num: 0, den: 1 }
    } else {
        fifth_order_sum(count - 1).plus(fifth_order_weight_of(count - 1))
    }
}

/// The sum of the weights of the first `count` stages in the solution of
/// order four.
pub open spec fn fourth_order_sum(count: int) -> Fraction
    decreases count,
{
    if count <= 0 {
        Fraction { num: 0, den: 1 }
    } else {
        fourth_order_sum(count - 1).plus(fourth_order_weight_of(count - 1))
    }
}

/// The node of stage `s`.
pub fn node(s: usize) -> (c: Ratio)
    requires
        s < STAGES,
    ensures
        c@ == node_of(s as int),
{
    match s {
        1 => Ratio { num: 1, den: 5 },
        2 => Ratio { num: 3, den: 10 },
        3 => Ratio { num: 3, den: 5 },
        4 => Ratio { num: 1, den: 1 },
        5 => Ratio { num: 7, den: 8 },
        _ => Ratio { num: 0, den: 1 },
    }
}

/// The weight that stage `s` gives to the derivative of the earlier stage
/// `j`.
pub fn coupling(s: usize, j: usize) -> (a: Ratio)
    requires
        j < s < STAGES,
    ensures
        a@ == coupling_of(s as int, j as int),
{
    match (s, j) {
        (1, 0) => Ratio { num: 1, den: 5 },
        (2, 0) => Ratio { num: 3, den: 40 },
        (2, 1) => Ratio { num: 9, den: 40 },
        (3, 0) => Ratio { num: 3, den: 10 },
        (3, 1) => Ratio { num: -9, den: 10 },
        (3, 2) => Ratio { num: 6, den: 5 },
        (4, 0) => Ratio { num: -11, den: 54 },
        (4, 1) => Ratio { num: 5, den: 2 },
        (4, 2) => Ratio { num: -70, den: 27 },
        (4, 3) => Ratio { num: 35, den: 27 },
        (5, 0) => Ratio { num: 1631, den: 55296 },
        (5, 1) => Ratio { num: 175, den: 512 },
        (5, 2) => Ratio { num: 575, den: 13824 },
        (5, 3) => Ratio { num: 44275, den: 110592 },
        (5, 4) => Ratio { num: 253, den: 4096 },
        _ => Ratio { num: 0, den: 1 },
    }
}

/// The weight of stage `j` in the solution of order five.
pub fn fifth_order_weight(j: usize) -> (b: Ratio)
    requires
        j < STAGES,
    ensures
        b@ == fifth_order_weight_of(j as int),
{
    match j {
        0 => Ratio { num: 37, den: 378 },
        2 => Ratio { num: 250, den: 621 },
        3 => Ratio { num: 125, den: 594 },
        5 => Ratio { num: 512, den: 1771 },
        _ => Ratio { num: 0, den: 1 },
    }
}

/// The weight of stage `j` in the solution of order four.
pub fn fourth_order_weight(j: usize) -> (b: Ratio)
    requires
        j < STAGES,
    ensures
        b@ == fourth_order_weight_of(j as int),
{
    match j {
        0 => Ratio { num: 2825, den: 27648 },
        2 => Ratio { num: 18575, den: 48384 },
        3 => Ratio { num: 13525, den: 55296 },
        4 => Ratio { num: 277, den: 14336 },
        5 => Ratio { num: 1, den: 4 },
        _ => Ratio { num: 0, den: 1 },
    }
}

/// Every coefficient of the tableau has a positive denominator.
pub proof fn lemma_denominators_positive(s: int, j: int)
    ensures
        node_of(s).den > 0,
        coupling_of(s, j).den > 0,
        fifth_order_weight_of(j).den > 0,
        fourth_order_weight_of(j).den > 0,
{
}

/// The sum of two fractions, computed.
proof fn lemma_plus(a_num: int, a_den: int, b_num: int, b_den: int, num: int, den: int)
    requires
        num == a_num * b_den + b_num * a_den,
        den == a_den * b_den,
    ensures
        (Fraction { num: a_num, den: a_den }).plus(Fraction { num: b_num, den: b_den }) == (Fraction {
            num,
            den,
        }),
{
}

/// Two fractions whose cross products agree stand for the same number.
proof fn lemma_same(a_num: int, a_den: int, b_num: int, b_den: int)
    requires
        a_num * b_den == b_num * a_den,
    ensures
        (Fraction { num: a_num, den: a_den }).same(Fraction { num: b_num, den: b_den }),
{
}

/// The weights that a stage gives to the earlier stages add up to its
/// node: every stage is exact for a derivative that is constant.
pub proof fn lemma_row_sums_to_node(s: int)
    requires
        0 <= s < STAGES,
    ensures
        coupling_sum(s, s).same(node_of(s)),
        coupling_sum(s, s).den > 0,
{
    assert(coupling_sum(s, 0) == Fraction { num: 0, den: 1 });
    if s == 1 {
        lemma_plus(0, 1, 1, 5, 1, 5);
        assert(coupling_sum(1, 1) == Fraction { num: 1, den: 5 });
        lemma_same(1, 5, 1, 5);
    } else if s == 2 {
        lemma_plus(0, 1, 3, 40, 3, 40);
        assert(coupling_sum(2, 1) == Fraction { num: 3, den: 40 });
        lemma_plus(3, 40, 9, 40, 480, 1600);
        assert(coupling_sum(2, 2) == Fraction { num: 480, den: 1600 });
        lemma_same(480, 1600, 3, 10);
    } else if s == 3 {
        lemma_plus(0, 1, 3, 10, 3, 10);
        assert(coupling_sum(3, 1) == Fraction { num: 3, den: 10 });
        lemma_plus(3, 10, -9, 10, -60, 100);
        assert(coupling_sum(3, 2) == Fraction { num: -60, den: 100 });
        lemma_plus(-60, 100, 6, 5, 300, 500);
        assert(coupling_sum(3, 3) == Fraction { num: 300, den: 500 });
        lemma_same(300, 500, 3, 5);
    } else if s == 4 {
        lemma_plus(0, 1, -11, 54, -11, 54);
        assert(coupling_sum(4, 1) == Fraction { num: -11, den: 54 });
        lemma_plus(-11, 54, 5, 2, 248, 108);
        assert(coupling_sum(4, 2) == Fraction { num: 248, den: 108 });
        lemma_plus(248, 108, -70, 27, -864, 2916);
        assert(coupling_sum(4, 3) == Fraction { num: -864, den: 2916 });
        lemma_plus(-864, 2916, 35, 27, 78732, 78732);
        assert(coupling_sum(4, 4) == Fraction { num: 78732, den: 78732 });
        lemma_same(78732, 78732, 1, 1);
    } else if s == 5 {
        lemma_plus(0, 1, 1631, 55296, 1631, 55296);
        assert(coupling_sum(5, 1) == Fraction { num: 1631, den: 55296 });
        lemma_plus(1631, 55296, 175, 512, 10511872, 28311552);
        assert(coupling_sum(5, 2) == Fraction { num: 10511872, den: 28311552 });
        lemma_plus(10511872, 28311552, 575, 13824, 161595260928, 391378894848);
        assert(coupling_sum(5, 3) == Fraction { num: 161595260928, den: 391378894848 });
        lemma_plus(161595260928, 391378894848, 44275, 110592, 35199443665944576, 43283374739030016);
        assert(coupling_sum(5, 4) == Fraction { num: 35199443665944576, den: 43283374739030016 });
        lemma_plus(35199443665944576, 43283374739030016, 253, 4096, 155127615064683577344, 177288702931066945536);
        assert(coupling_sum(5, 5) == Fraction { num: 155127615064683577344, den: 177288702931066945536 });
        lemma_same(155127615064683577344, 177288702931066945536, 7, 8);
    }
}

/// The weights of either solution add up to one.
pub proof fn lemma_weights_sum_to_one()
    ensures
        fifth_order_sum(STAGES as int).same(Fraction { num: 1, den: 1 }),
        fourth_order_sum(STAGES as int).same(Fraction { num: 1, den: 1 }),
{
    assert(fifth_order_sum(0) == Fraction { num: 0, den: 1 });
    lemma_plus(0, 1, 37, 378, 37, 378);
    assert(fifth_order_sum(1) == Fraction { num: 37, den: 378 });
    lemma_plus(37, 378, 0, 1, 37, 378);
    assert(fifth_order_sum(2) == Fraction { num: 37, den: 378 });
    lemma_plus(37, 378, 250, 621, 117477, 234738);
    assert(fifth_order_sum(3) == Fraction { num: 117477, den: 234738 });
    lemma_plus(117477, 234738, 125, 594, 99123588, 139434372);
    assert(fifth_order_sum(4) == Fraction { num: 99123588, den: 139434372 });
    lemma_plus(99123588, 139434372, 0, 1, 99123588, 139434372);
    assert(fifth_order_sum(5) == Fraction { num: 99123588, den: 139434372 });
    lemma_plus(99123588, 139434372, 512, 1771, 246938272812, 246938272812);
    assert(fifth_order_sum(6) == Fraction { num: 246938272812, den: 246938272812 });
    lemma_same(246938272812, 246938272812, 1, 1);
    assert(fourth_order_sum(0) == Fraction { num: 0, den: 1 });
    lemma_plus(0, 1, 2825, 27648, 2825, 27648);
    assert(fourth_order_sum(1) == Fraction { num: 2825, den: 27648 });
    lemma_plus(2825, 27648, 0, 1, 2825, 27648);
    assert(fourth_order_sum(2) == Fraction { num: 2825, den: 27648 });
    lemma_plus(2825, 27648, 18575, 48384, 650246400, 1337720832);
    assert(fourth_order_sum(3) == Fraction { num: 650246400, den: 1337720832 });
    lemma_plus(650246400, 1337720832, 13525, 55296, 54048699187200, 73970611126272);
    assert(fourth_order_sum(4) == Fraction { num: 54048699187200, den: 73970611126272 });
    lemma_plus(54048699187200, 73970611126272, 277, 14336, 795332010829676544, 1060442681106235392);
    assert(fourth_order_sum(5) == Fraction { num: 795332010829676544, den: 1060442681106235392 });
    lemma_plus(795332010829676544, 1060442681106235392, 1, 4, 4241770724424941568, 4241770724424941568);
    assert(fourth_order_sum(6) == Fraction { num: 4241770724424941568, den: 4241770724424941568 });
    lemma_same(4241770724424941568, 4241770724424941568, 1, 1);
}

} // verus!
