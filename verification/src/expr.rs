use vstd::prelude::*;

use crate::fixed::{lemma_i64_product_fits, sdivq, smul, tdiv_i128, Scalar, SCALE};

verus! {

/// A scalar arithmetic expression tree over fixed-point constants.
pub enum Expr {
    Constant(Scalar),
    Add(Box<Expr>, Box<Expr>),
    Sub(Box<Expr>, Box<Expr>),
    Mul(Box<Expr>, Box<Expr>),
    Div(Box<Expr>, Box<Expr>),
}

impl Clone for Expr {
    /// An equal copy of the whole expression tree.
    fn clone(&self) -> (r: Self)
        ensures
            r == *self,
        decreases *self,
    {
        match self {
            Expr::Constant(v) => Expr::Constant(*v),
            Expr::Add(l, rr) => Expr::Add(Box::new((**l).clone()), Box::new((**rr).clone())),
            Expr::Sub(l, rr) => Expr::Sub(Box::new((**l).clone()), Box::new((**rr).clone())),
            Expr::Mul(l, rr) => Expr::Mul(Box::new((**l).clone()), Box::new((**rr).clone())),
            Expr::Div(l, rr) => Expr::Div(Box::new((**l).clone()), Box::new((**rr).clone())),
        }
    }
}

/// The raw value of an expression, or nothing where a division by
/// zero occurs or an intermediate result leaves the 64-bit range.
pub open spec fn eval_num(e: Expr) -> Option<int>
    decreases e,
{
    match e {
        Expr::Constant(v) => Some(v@),
        Expr::Add(l, r) => match (eval_num(*l), eval_num(*r)) {
            (Some(a), Some(b)) => if i64::MIN <= a + b <= i64::MAX {
                Some(a + b)
            } else {
                None
            },
            _ => None,
        },
        Expr::Sub(l, r) => match (eval_num(*l), eval_num(*r)) {
            (Some(a), Some(b)) => if i64::MIN <= a - b <= i64::MAX {
                Some(a - b)
            } else {
                None
            },
            _ => None,
        },
        Expr::Mul(l, r) => match (eval_num(*l), eval_num(*r)) {
            (Some(a), Some(b)) => if i64::MIN <= smul(a, b) <= i64::MAX {
                Some(smul(a, b))
            } else {
                None
            },
            _ => None,
        },
        Expr::Div(l, r) => match (eval_num(*l), eval_num(*r)) {
            (Some(a), Some(b)) => if b != 0 && i64::MIN <= sdivq(a, b) <= i64::MAX {
                Some(sdivq(a, b))
            } else {
                None
            },
            _ => None,
        },
    }
}

/// The raw value held by an optional scalar.
pub open spec fn opt_raw(r: Option<Scalar>) -> Option<int> {
    match r {
        Some(s) => Some(s@),
        None => None,
    }
}

impl Expr {
    /// Evaluate the expression bottom-up; a division by zero or a
    /// result outside the 64-bit range yields nothing.
    pub fn eval(&self) -> (r: Option<Scalar>)
        ensures
            opt_raw(r) == eval_num(*self),
        decreases *self,
    {
        match self {
            Expr::Constant(v) => Some(*v),
            Expr::Add(l, r) => match (l.eval(), r.eval()) {
                (Some(a), Some(b)) => match a.raw.checked_add(b.raw) {
                    Some(v) => Some(Scalar { raw: v }),
                    None => None,
                },
                _ => None,
            },
            Expr::Sub(l, r) => match (l.eval(), r.eval()) {
                (Some(a), Some(b)) => match a.raw.checked_sub(b.raw) {
                    Some(v) => Some(Scalar { raw: v }),
                    None => None,
                },
                _ => None,
            },
            Expr::Mul(l, r) => match (l.eval(), r.eval()) {
                (Some(a), Some(b)) => {
                    proof {
                        lemma_i64_product_fits(a@, b@);
                    }
                    let p: i128 = (a.raw as i128) * (b.raw as i128);
                    let q: i128 = tdiv_i128(p, SCALE as i128);
                    if q > i64::MAX as i128 || q < i64::MIN as i128 {
                        None
                    } else {
                        Some(Scalar { raw: q as i64 })
                    }
                },
                _ => None,
            },
            Expr::Div(l, r) => match (l.eval(), r.eval()) {
                (Some(a), Some(b)) => {
                    if b.raw == 0 {
                        None
                    } else {
                        proof {
                            lemma_i64_product_fits(a@, SCALE as int);
                        }
                        let p: i128 = (a.raw as i128) * (SCALE as i128);
                        let d: i128 = b.raw as i128;
                        let q: i128 = if d >= 0 {
                            tdiv_i128(p, d)
                        } else {
                            -tdiv_i128(p, -d)
                        };
                        if q > i64::MAX as i128 || q < i64::MIN as i128 {
                            None
                        } else {
                            Some(Scalar { raw: q as i64 })
                        }
                    }
                },
                _ => None,
            },
        }
    }

    /// The sum of two expressions.
    pub fn add(lhs: Expr, rhs: Expr) -> (r: Expr)
        ensures
            (r matches Expr::Add(l, rr) && *l == lhs && *rr == rhs),
    {
        Expr::Add(Box::new(lhs), Box::new(rhs))
    }

    /// The difference of two expressions.
    pub fn sub(lhs: Expr, rhs: Expr) -> (r: Expr)
        ensures
            (r matches Expr::Sub(l, rr) && *l == lhs && *rr == rhs),
    {
        Expr::Sub(Box::new(lhs), Box::new(rhs))
    }

    /// The product of two expressions.
    pub fn mul(lhs: Expr, rhs: Expr) -> (r: Expr)
        ensures
            (r matches Expr::Mul(l, rr) && *l == lhs && *rr == rhs),
    {
        Expr::Mul(Box::new(lhs), Box::new(rhs))
    }

    /// The quotient of two expressions.
    pub fn div(lhs: Expr, rhs: Expr) -> (r: Expr)
        ensures
            (r matches Expr::Div(l, rr) && *l == lhs && *rr == rhs),
    {
        Expr::Div(Box::new(lhs), Box::new(rhs))
    }
}

} // verus!
