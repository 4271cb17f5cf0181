//! Properties of the accumulator that span several of its operations.
use vstd::prelude::*;
use crate::calc::{
    Calc, Operator, cleared, combine, digit_entered, display_text, evaluated, with_operator,
};
use crate::number::{
    Number, abs, appended, digits_of, fraction_digits, gcd, number_of, reduce, representable, shown_fraction,
    trim_zeros, whole,
};

verus! {

/// Dividing with no right operand entered divides by one: a left operand in
/// lowest terms stays as it was and the operator is cleared.
pub proof fn lemma_divide_by_identity(c: Calc)
    requires
        c.wf(),
        c.left.in_lowest_terms(),
        c.operator == Some(Operator::Div),
        c.right is None,
    ensures
        evaluated(c) == Ok::<Calc, crate::calc::CalcError>(
            Calc { left: c.left, right: None, operator: None, is_evaluated: true },
        ),
{
    if let Number::Finite { num, den } = c.left {
        assert(den as nat * 1 == den as nat);
    }
}

/// Dividing by an entered zero gives `+inf` for a positive left operand, `-inf`
/// for a negative one and `NaN` for zero.
pub proof fn lemma_divide_by_zero(c: Calc, num: i64, den: u64)
    requires
        c.wf(),
        c.operator == Some(Operator::Div),
        c.right == Some(0u64),
        c.left == (Number::Finite { num, den }),
    ensures
        evaluated(c) == Ok::<Calc, crate::calc::CalcError>(
            Calc {
                left: if num > 0 {
                    Number::PosInf
                } else if num < 0 {
                    Number::NegInf
                } else {
                    Number::NaN
                },
                right: None,
                operator: None,
                is_evaluated: true,
            },
        ),
{
}

/// After `=` a digit, with no operator chosen since, starts a new number: the
/// left operand becomes that digit rather than extending the result.
pub proof fn lemma_fresh_entry_after_evaluate(c: Calc, e: Calc, d: u8)
    requires
        c.wf(),
        c.operator is Some,
        evaluated(c) == Ok::<Calc, crate::calc::CalcError>(e),
        d < 10,
    ensures
        digit_entered(e, d as nat) == Ok::<Calc, crate::calc::CalcError>(
            Calc { left: Number::Finite { num: d as i64, den: 1 }, right: None, operator: None, is_evaluated: false },
        ),
{
    let n = d as int;
    assert(fraction_digits(0, 1, 16) =~= Seq::<u8>::empty());
    assert(trim_zeros(Seq::<u8>::empty()) =~= Seq::<u8>::empty());
    assert(shown_fraction(0, 1) =~= Seq::<u8>::empty());
    assert(abs(n) == d as nat);
    assert(gcd(abs(n), 1) == gcd(1, 0));
    assert(gcd(1, 0) == 1);
    assert(abs(0) / 1nat == 0);
    assert(abs(n) / 1nat == abs(n));
    assert(1nat / 1nat == 1);
    assert(reduce(n, 1) == whole(n));
    assert(appended(whole(0), d as nat) == reduce(n, 1));
}

/// A result chains: after `=`, choosing `op`, entering the digit `d` and pressing
/// `=` again folds `d` into the previous result with `op`.
pub proof fn lemma_chain_onto_result(c: Calc, e: Calc, op: Operator, d: u8)
    requires
        c.wf(),
        c.operator is Some,
        evaluated(c) == Ok::<Calc, crate::calc::CalcError>(e),
        d < 10,
    ensures
        ({
            let s = Calc { left: e.left, right: Some(d as u64), operator: Some(op), is_evaluated: true };
            let x = combine(op, e.left@, d as nat);
            &&& digit_entered(with_operator(e, op), d as nat) == Ok::<Calc, crate::calc::CalcError>(s)
            &&& representable(x) ==> evaluated(s) == Ok::<Calc, crate::calc::CalcError>(
                Calc { left: number_of(x), right: None, operator: None, is_evaluated: true },
            )
        }),
{
}

/// A cleared accumulator shows `0`, whatever it held before.
pub proof fn lemma_clear_shows_zero(c: Calc)
    ensures
        display_text(cleared(c)) == seq!['0'],
{
    assert(fraction_digits(0, 1, 16) =~= Seq::<u8>::empty());
    assert(trim_zeros(Seq::<u8>::empty()) =~= Seq::<u8>::empty());
    assert(digits_of(0) == seq!['0']);
    assert(display_text(cleared(c)) =~= seq!['0']);
}

} // verus!
