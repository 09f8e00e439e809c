//! Trees of arithmetic expressions over unsigned numbers, and their values.
use vstd::prelude::*;

verus! {

/// An arithmetic expression.
#[derive(PartialEq, Eq, Debug)]
pub enum Node {
    Number(u32),
    Plus(Box<Node>, Box<Node>),
    Minus(Box<Node>, Box<Node>),
    Mult(Box<Node>, Box<Node>),
    Div(Box<Node>, Box<Node>),
    Pow(Box<Node>, Box<Node>),
    Parenthesized(Box<Node>),
}

/// `b` to the power `e`.
pub open spec fn spec_pow(b: nat, e: nat) -> nat
    decreases e,
{
    if e == 0 {
        1
    } else {
        b * spec_pow(b, (e - 1) as nat)
    }
}

/// A result that fits in a `u32`.
pub open spec fn fit(v: nat) -> Option<u32> {
    if v <= u32::MAX {
        Some(v as u32)
    } else {
        None
    }
}

/// The value of a tree in `u32` arithmetic: `None` when some step overflows, goes
/// below zero or divides by zero.
pub open spec fn spec_eval(n: Node) -> Option<u32>
    decreases n,
{
    match n {
        Node::Number(v) => Some(v),
        Node::Parenthesized(inner) => spec_eval(*inner),
        Node::Plus(a, b) => match (spec_eval(*a), spec_eval(*b)) {
            (Some(x), Some(y)) => fit((x + y) as nat),
            _ => None,
        },
        Node::Minus(a, b) => match (spec_eval(*a), spec_eval(*b)) {
            (Some(x), Some(y)) => if x >= y {
                Some((x - y) as u32)
            } else {
                None
            },
            _ => None,
        },
        Node::Mult(a, b) => match (spec_eval(*a), spec_eval(*b)) {
            (Some(x), Some(y)) => fit((x * y) as nat),
            _ => None,
        },
        Node::Div(a, b) => match (spec_eval(*a), spec_eval(*b)) {
            (Some(x), Some(y)) => if y != 0 {
                Some((x / y) as u32)
            } else {
                None
            },
            _ => None,
        },
        Node::Pow(a, b) => match (spec_eval(*a), spec_eval(*b)) {
            (Some(x), Some(y)) => fit(spec_pow(x as nat, y as nat)),
            _ => None,
        },
    }
}

/// Powers of a base of at least one grow with the exponent.
pub proof fn lemma_pow_monotone(b: nat, i: nat, e: nat)
    requires
        b >= 1,
        i <= e,
    ensures
        spec_pow(b, i) <= spec_pow(b, e),
    decreases e,
{
    if i < e {
        lemma_pow_monotone(b, i, (e - 1) as nat);
        let x = spec_pow(b, (e - 1) as nat);
        assert(b * x >= x) by (nonlinear_arith)
            requires
                b >= 1,
        ;
    }
}

/// `b` to the power `e`, or `None` when it does not fit in a `u32`.
fn checked_pow_u32(b: u32, e: u32) -> (r: Option<u32>)
    ensures
        r == fit(spec_pow(b as nat, e as nat)),
{
    let mut r: u32 = 1;
    let mut i: u32 = 0;
    while i < e
        invariant
            i <= e,
            r == spec_pow(b as nat, i as nat),
        decreases e - i,
    {
        proof {
            assert(spec_pow(b as nat, (i + 1) as nat) == b * spec_pow(b as nat, i as nat));
            assert(r * b == b * r) by (nonlinear_arith);
        }
        match r.checked_mul(b) {
            Some(x) => {
                r = x;
            },
            None => {
                proof {
                    assert(r * b > u32::MAX);
                    assert(b != 0) by {
                        if b == 0 {
                            assert(r * b == 0) by (nonlinear_arith)
                                requires
                                    b == 0,
                            ;
                        }
                    }
                    lemma_pow_monotone(b as nat, (i + 1) as nat, e as nat);
                }
                return None;
            },
        }
        i = i + 1;
    }
    Some(r)
}

/// `b` to the power `e`, which must fit in a `u32`.
fn pow_u32(b: u32, e: u32) -> (r: u32)
    requires
        spec_pow(b as nat, e as nat) <= u32::MAX,
    ensures
        r == spec_pow(b as nat, e as nat),
{
    let mut r: u32 = 1;
    let mut i: u32 = 0;
    while i < e
        invariant
            i <= e,
            r == spec_pow(b as nat, i as nat),
            spec_pow(b as nat, e as nat) <= u32::MAX,
        decreases e - i,
    {
        proof {
            if b >= 1 {
                lemma_pow_monotone(b as nat, (i + 1) as nat, e as nat);
            }
            assert(spec_pow(b as nat, (i + 1) as nat) == b * spec_pow(b as nat, i as nat));
            assert(r * b == b * r) by (nonlinear_arith);
        }
        r = r * b;
        i = i + 1;
    }
    r
}

impl Node {
    /// The value of the expression.
    /// The value of the tree, or `None` when some step overflows, goes below zero or
    /// divides by zero.
    pub fn checked_eval(&self) -> (r: Option<u32>)
        ensures
            r == spec_eval(*self),
        decreases self,
    {
        match self {
            Node::Number(n) => Some(*n),
            Node::Plus(lhs, rhs) => match (lhs.checked_eval(), rhs.checked_eval()) {
                (Some(x), Some(y)) => x.checked_add(y),
                _ => None,
            },
            Node::Minus(lhs, rhs) => match (lhs.checked_eval(), rhs.checked_eval()) {
                (Some(x), Some(y)) => if x >= y {
                    Some(x - y)
                } else {
                    None
                },
                _ => None,
            },
            Node::Mult(lhs, rhs) => match (lhs.checked_eval(), rhs.checked_eval()) {
                (Some(x), Some(y)) => x.checked_mul(y),
                _ => None,
            },
            Node::Div(lhs, rhs) => match (lhs.checked_eval(), rhs.checked_eval()) {
                (Some(x), Some(y)) => if y != 0 {
                    Some(x / y)
                } else {
                    None
                },
                _ => None,
            },
            Node::Pow(lhs, rhs) => match (lhs.checked_eval(), rhs.checked_eval()) {
                (Some(x), Some(y)) => checked_pow_u32(x, y),
                _ => None,
            },
            Node::Parenthesized(inner) => inner.checked_eval(),
        }
    }

    pub fn eval(&self) -> (r: u32)
        requires
            spec_eval(*self) is Some,
        ensures
            spec_eval(*self) == Some(r),
        decreases self,
    {
        match self {
            Node::Number(n) => *n,
            Node::Plus(lhs, rhs) => lhs.eval() + rhs.eval(),
            Node::Minus(lhs, rhs) => lhs.eval() - rhs.eval(),
            Node::Mult(lhs, rhs) => lhs.eval() * rhs.eval(),
            Node::Div(lhs, rhs) => lhs.eval() / rhs.eval(),
            Node::Pow(lhs, rhs) => pow_u32(lhs.eval(), rhs.eval()),
            Node::Parenthesized(inner) => inner.eval(),
        }
    }
}

/// What each operator computes on two numbers, in `u32` arithmetic: a sum or product
/// when it fits, a difference when it does not go below zero (so `x - x` is `0`), a
/// quotient rounded down when the divisor is not zero, and a power when it fits; and
/// parentheses keep the value.
pub proof fn law_eval_numbers(x: u32, y: u32)
    ensures
        spec_eval(Node::Plus(Box::new(Node::Number(x)), Box::new(Node::Number(y)))) == (if x + y
            <= u32::MAX {
            Some((x + y) as u32)
        } else {
            None
        }),
        spec_eval(Node::Minus(Box::new(Node::Number(x)), Box::new(Node::Number(y)))) == (if x >= y {
            Some((x - y) as u32)
        } else {
            None
        }),
        spec_eval(Node::Mult(Box::new(Node::Number(x)), Box::new(Node::Number(y)))) == (if x * y
            <= u32::MAX {
            Some((x * y) as u32)
        } else {
            None
        }),
        spec_eval(Node::Div(Box::new(Node::Number(x)), Box::new(Node::Number(y)))) == (if y != 0 {
            Some((x / y) as u32)
        } else {
            None
        }),
        y != 0 ==> (spec_eval(Node::Div(Box::new(Node::Number(x)), Box::new(Node::Number(y))))
            matches Some(q) && q * y <= x < (q + 1) * y),
        spec_eval(Node::Pow(Box::new(Node::Number(x)), Box::new(Node::Number(0)))) == Some(1u32),
        spec_eval(Node::Pow(Box::new(Node::Number(x)), Box::new(Node::Number(1)))) == Some(x),
        spec_eval(Node::Parenthesized(Box::new(Node::Number(x)))) == Some(x),
        spec_eval(Node::Minus(Box::new(Node::Number(x)), Box::new(Node::Number(x)))) == Some(0u32),
{
    assert(spec_eval(Node::Number(x)) == Some(x));
    assert(spec_eval(Node::Number(y)) == Some(y));
    assert(spec_pow(x as nat, 0) == 1);
    assert(spec_pow(x as nat, 1) == x * spec_pow(x as nat, 0));
    assert(spec_eval(Node::Number(0)) == Some(0u32));
    assert(spec_eval(Node::Number(1)) == Some(1u32));
    assert(fit(spec_pow(x as nat, 0 as nat)) == Some(1u32));
    assert(fit(spec_pow(x as nat, 1 as nat)) == Some(x));
    if y != 0 {
        let q = x / y;
        assert(q * y <= x < (q + 1) * y) by (nonlinear_arith)
            requires
                y != 0,
                q == x / y,
        ;
    }
}

/// A subtraction of the values of two trees: defined exactly when both are and the first
/// is not below the second, and then their difference.
pub proof fn law_eval_minus(a: Node, b: Node)
    ensures
        spec_eval(Node::Minus(Box::new(a), Box::new(b))) is Some <==> (spec_eval(a) is Some
            && spec_eval(b) is Some && spec_eval(a).unwrap() >= spec_eval(b).unwrap()),
        spec_eval(Node::Minus(Box::new(a), Box::new(b))) matches Some(v) ==> v + spec_eval(
            b,
        ).unwrap() == spec_eval(a).unwrap(),
{
}

} // verus!
