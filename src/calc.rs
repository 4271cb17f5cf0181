//! The accumulator: a left operand, a pending operator and a right operand.
use vstd::prelude::*;
use crate::number::{
    Exact, Number, appended, digits_of, divided, is_finite, minus, number_of, number_text, plus,
    representable, times,
};

verus! {

/// An arithmetic operator of the calculator.
#[derive(Clone, Copy, Debug, PartialEq, Eq, Structural)]
pub enum Operator {
    Add,
    Sub,
    Mul,
    Div,
}

/// Why an operation left the accumulator as it was.
#[derive(Clone, Copy, Debug, PartialEq, Eq, Structural)]
pub enum CalcError {
    /// The exact result does not fit a `Number`.
    Overflow,
    /// The operand is `inf`, `-inf` or `NaN`: its text followed by a digit is no number.
    Format,
}

/// The glyph of an operator.
pub open spec fn glyph(op: Operator) -> Seq<char> {
    match op {
        Operator::Add => seq!['+'],
        Operator::Sub => seq!['-'],
        Operator::Mul => seq!['*'],
        Operator::Div => seq!['/'],
    }
}

/// The right operand used when none was entered: the operator's identity.
pub open spec fn identity(op: Operator) -> nat {
    match op {
        Operator::Add | Operator::Sub => 0,
        Operator::Mul | Operator::Div => 1,
    }
}

/// `x op c`.
pub open spec fn combine(op: Operator, x: Exact, c: nat) -> Exact {
    match op {
        Operator::Add => plus(x, c),
        Operator::Sub => minus(x, c),
        Operator::Mul => times(x, c),
        Operator::Div => divided(x, c),
    }
}

impl Operator {
    /// The glyph of the operator.
    pub fn glyph(&self) -> (r: &'static str)
        ensures
            r@ == glyph(*self),
    {
        proof {
            reveal_strlit("+");
            reveal_strlit("-");
            reveal_strlit("*");
            reveal_strlit("/");
        }
        match *self {
            Operator::Add => "+",
            Operator::Sub => "-",
            Operator::Mul => "*",
            Operator::Div => "/",
        }
    }
}

/// The accumulator of the calculator.
#[derive(Clone, Copy, Debug, PartialEq, Eq, Structural)]
pub struct Calc {
    /// The accumulated left operand.
    pub left: Number,
    /// The right operand being entered, once a digit follows an operator.
    pub right: Option<u64>,
    /// The pending operator.
    pub operator: Option<Operator>,
    /// Set by `=`: the next digit, with no operator chosen since, starts afresh.
    pub is_evaluated: bool,
}

/// The left operand of a fresh or cleared accumulator.
pub open spec fn zero() -> Number {
    Number::Finite { num: 0, den: 1 }
}

/// The accumulator after a clear: operands and operator reset, the flag kept.
pub open spec fn cleared(c: Calc) -> Calc {
    Calc { left: zero(), right: None, operator: None, is_evaluated: c.is_evaluated }
}

/// The accumulator after choosing `op`.
pub open spec fn with_operator(c: Calc, op: Operator) -> Calc {
    Calc { operator: Some(op), ..c }
}

/// The accumulator after folding the right operand (or `op`'s identity) into the
/// left one with `op`.
pub open spec fn folded(c: Calc, op: Operator) -> Result<Calc, CalcError> {
    let r = match c.right {
        Some(v) => v as nat,
        None => identity(op),
    };
    let x = combine(op, c.left@, r);
    if representable(x) {
        Ok(Calc { left: number_of(x), right: None, operator: None, is_evaluated: true })
    } else {
        Err(CalcError::Overflow)
    }
}

/// The accumulator after `=`: the pending operator applied, or no change without one.
pub open spec fn evaluated(c: Calc) -> Result<Calc, CalcError> {
    match c.operator {
        Some(op) => folded(c, op),
        None => Ok(c),
    }
}

/// Where a digit starts: after `=` with no operator chosen since, from a fresh
/// accumulator; otherwise from `c` itself.
pub open spec fn entry_start(c: Calc) -> Calc {
    if c.is_evaluated && c.operator is None {
        Calc { left: zero(), right: None, operator: None, is_evaluated: false }
    } else {
        c
    }
}

/// The accumulator after the digit `d`: it extends the right operand when an
/// operator is pending, else the left one.
pub open spec fn digit_entered(c: Calc, d: nat) -> Result<Calc, CalcError> {
    let s = entry_start(c);
    if s.operator is Some {
        let v = 10 * match s.right {
            Some(r) => r as nat,
            None => 0,
        } + d;
        if v <= i64::MAX {
            Ok(Calc { right: Some(v as u64), ..s })
        } else {
            Err(CalcError::Overflow)
        }
    } else if !is_finite(s.left@) {
        Err(CalcError::Format)
    } else if representable(appended(s.left@, d)) {
        Ok(Calc { left: number_of(appended(s.left@, d)), ..s })
    } else {
        Err(CalcError::Overflow)
    }
}

/// The display line: the left operand, then the operator's glyph and the right
/// operand when there are any, separated by single spaces.
pub open spec fn display_text(c: Calc) -> Seq<char> {
    match c.operator {
        None => number_text(c.left@),
        Some(op) => number_text(c.left@) + seq![' '] + glyph(op) + match c.right {
            Some(r) => seq![' '] + digits_of(r as nat),
            None => Seq::<char>::empty(),
        },
    }
}

/// `after` is `t` applied to `before` with result `r`: the new state on success, the old
/// one kept with the error otherwise.
pub open spec fn takes_step(before: Calc, after: Calc, r: Result<(), CalcError>, t: Result<Calc, CalcError>) -> bool {
    match t {
        Ok(n) => r is Ok && after == n,
        Err(e) => r == Err::<(), CalcError>(e) && after == before,
    }
}

impl Calc {
    /// The accumulator's invariant: a well-formed left operand, a right operand that
    /// fits an `i64`, and no right operand without an operator.
    pub open spec fn wf(&self) -> bool {
        &&& self.left.wf()
        &&& (self.right matches Some(r) ==> r <= i64::MAX)
        &&& (self.right is Some ==> self.operator is Some)
    }

    /// A fresh accumulator: `0`, no operator, no right operand.
    pub fn new() -> (r: Calc)
        ensures
            r.wf(),
            r.left == zero(),
            r.right is None,
            r.operator is None,
            !r.is_evaluated,
    {
        Calc { left: Number::whole(0), right: None, operator: None, is_evaluated: false }
    }

    /// Folds the right operand into the left one with `op`.
    fn fold(&mut self, op: Operator) -> (r: Result<(), CalcError>)
        requires
            old(self).wf(),
        ensures
            final(self).wf(),
            takes_step(*old(self), *final(self), r, folded(*old(self), op)),
    {
        let c: u64 = match self.right {
            Some(v) => v,
            None => match op {
                Operator::Add | Operator::Sub => 0,
                Operator::Mul | Operator::Div => 1,
            },
        };
        let result = match op {
            Operator::Add => self.left.checked_add(c),
            Operator::Sub => self.left.checked_sub(c),
            Operator::Mul => self.left.checked_mul(c),
            Operator::Div => self.left.checked_div(c),
        };
        match result {
            Some(v) => {
                self.left = v;
                self.right = None;
                self.operator = None;
                self.is_evaluated = true;
                Ok(())
            },
            None => Err(CalcError::Overflow),
        }
    }

    /// `left + right`, with `0` for a missing right operand; the operator is cleared.
    pub fn add(&mut self) -> (r: Result<(), CalcError>)
        requires
            old(self).wf(),
        ensures
            final(self).wf(),
            takes_step(*old(self), *final(self), r, folded(*old(self), Operator::Add)),
    {
        self.fold(Operator::Add)
    }

    /// `left - right`, with `0` for a missing right operand; the operator is cleared.
    pub fn sub(&mut self) -> (r: Result<(), CalcError>)
        requires
            old(self).wf(),
        ensures
            final(self).wf(),
            takes_step(*old(self), *final(self), r, folded(*old(self), Operator::Sub)),
    {
        self.fold(Operator::Sub)
    }

    /// `left * right`, with `1` for a missing right operand; the operator is cleared.
    pub fn mult(&mut self) -> (r: Result<(), CalcError>)
        requires
            old(self).wf(),
        ensures
            final(self).wf(),
            takes_step(*old(self), *final(self), r, folded(*old(self), Operator::Mul)),
    {
        self.fold(Operator::Mul)
    }

    /// `left / right`, with `1` for a missing right operand; the operator is cleared.
    pub fn div(&mut self) -> (r: Result<(), CalcError>)
        requires
            old(self).wf(),
        ensures
            final(self).wf(),
            takes_step(*old(self), *final(self), r, folded(*old(self), Operator::Div)),
    {
        self.fold(Operator::Div)
    }

    /// `=`: applies the pending operator; without one nothing changes.
    pub fn evaluate(&mut self) -> (r: Result<(), CalcError>)
        requires
            old(self).wf(),
        ensures
            final(self).wf(),
            takes_step(*old(self), *final(self), r, evaluated(*old(self))),
    {
        match self.operator {
            Some(op) => self.fold(op),
            None => Ok(()),
        }
    }

    /// The display line, as `display_text` gives it.
    pub fn display(&self) -> (r: String)
        requires
            self.wf(),
        ensures
            r@ == display_text(*self),
    {
        let mut out = String::new();
        self.left.push_text(&mut out);
        proof {
            reveal_strlit(" ");
        }
        match self.operator {
            None => {},
            Some(op) => {
                out.append(" ");
                out.append(op.glyph());
                match self.right {
                    Some(v) => {
                        out.append(" ");
                        crate::number::push_natural(&mut out, v);
                    },
                    None => {},
                }
            },
        }
        assert(out@ =~= display_text(*self));
        out
    }

    /// The glyph of the pending operator, or the empty text without one.
    pub fn symbol(&self) -> (r: String)
        ensures
            r@ == match self.operator {
                Some(op) => glyph(op),
                None => Seq::<char>::empty(),
            },
    {
        let mut out = String::new();
        match self.operator {
            Some(op) => out.append(op.glyph()),
            None => {},
        }
        assert(out@ =~= match self.operator {
            Some(op) => glyph(op),
            None => Seq::<char>::empty(),
        });
        out
    }

    /// Sets the left operand to `val`.
    pub fn set_display(&mut self, val: Number)
        requires
            old(self).wf(),
            val.wf(),
        ensures
            final(self).wf(),
            (*final(self) == Calc { left: val, ..*old(self) }),
    {
        self.left = val;
    }

    /// Enters the digit `val`; see `digit_entered`.
    pub fn add_display(&mut self, val: u8) -> (r: Result<(), CalcError>)
        requires
            old(self).wf(),
            val < 10,
        ensures
            final(self).wf(),
            takes_step(*old(self), *final(self), r, digit_entered(*old(self), val as nat)),
    {
        let start = if self.is_evaluated && self.operator.is_none() {
            Calc::new()
        } else {
            *self
        };
        if start.operator.is_some() {
            let r: u64 = match start.right {
                Some(r) => r,
                None => 0,
            };
            let v: u128 = r as u128 * 10 + val as u128;
            if v <= i64::MAX as u128 {
                *self = Calc { right: Some(v as u64), ..start };
                Ok(())
            } else {
                Err(CalcError::Overflow)
            }
        } else if !start.left.is_finite() {
            Err(CalcError::Format)
        } else {
            match start.left.append_digit(val) {
                Some(n) => {
                    *self = Calc { left: n, ..start };
                    Ok(())
                },
                None => Err(CalcError::Overflow),
            }
        }
    }

    /// Chooses `val` as the pending operator; a later choice replaces it.
    pub fn add_symbol(&mut self, val: Operator)
        requires
            old(self).wf(),
        ensures
            final(self).wf(),
            *final(self) == with_operator(*old(self), val),
    {
        self.operator = Some(val);
    }

    /// `C`: the left operand back to `0`, no operator, no right operand.
    pub fn reset(&mut self)
        requires
            old(self).wf(),
        ensures
            final(self).wf(),
            *final(self) == cleared(*old(self)),
    {
        self.left = Number::whole(0);
        self.right = None;
        self.operator = None;
    }
}

} // verus!
