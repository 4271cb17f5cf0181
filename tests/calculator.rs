use calculator::calc::{Calc, CalcError, Operator};
use calculator::key::{button_press, Key};
use calculator::number::Number;

fn whole(n: i64) -> Number {
    Number::Finite { num: n, den: 1 }
}

fn press_all(c: &mut Calc, labels: &[&str]) {
    for l in labels {
        button_press(c, l).unwrap();
    }
}

#[test]
fn digits_build_a_whole_number() {
    let mut c = Calc::new();
    c.add_display(1).unwrap();
    c.add_display(2).unwrap();
    c.add_display(3).unwrap();
    assert_eq!(c.left, whole(123));
    assert_eq!(c.display(), "123");
}

#[test]
fn addition_then_equals() {
    let mut c = Calc::new();
    c.add_display(5).unwrap();
    c.add_symbol(Operator::Add);
    c.add_display(2).unwrap();
    c.evaluate().unwrap();
    assert_eq!(c.left, whole(7));
    assert_eq!(c.operator, None);
    assert_eq!(c.right, None);
    assert!(c.is_evaluated);
}

#[test]
fn division_without_right_operand_keeps_left() {
    let mut c = Calc::new();
    c.add_display(9).unwrap();
    c.add_symbol(Operator::Div);
    c.evaluate().unwrap();
    assert_eq!(c.left, whole(9));
    assert_eq!(c.display(), "9");
}

#[test]
fn division_by_zero_gives_infinity() {
    let mut c = Calc::new();
    c.add_display(5).unwrap();
    c.add_symbol(Operator::Div);
    c.add_display(0).unwrap();
    c.evaluate().unwrap();
    assert_eq!(c.left, Number::PosInf);
    assert_eq!(c.display(), "inf");
}

#[test]
fn negative_over_zero_and_zero_over_zero() {
    let mut c = Calc::new();
    press_all(&mut c, &["5", "-", "8", "=", "/", "0", "="]);
    assert_eq!(c.left, Number::NegInf);
    assert_eq!(c.display(), "-inf");
    let mut z = Calc::new();
    press_all(&mut z, &["0", "/", "0", "="]);
    assert_eq!(z.left, Number::NaN);
    assert_eq!(z.display(), "NaN");
}

#[test]
fn infinity_times_zero_is_nan() {
    let mut c = Calc::new();
    press_all(&mut c, &["5", "/", "0", "=", "*", "0", "="]);
    assert_eq!(c.left, Number::NaN);
}

#[test]
fn chaining_onto_a_result() {
    let mut c = Calc::new();
    press_all(&mut c, &["5", "+", "2", "="]);
    assert_eq!(c.left, whole(7));
    c.add_symbol(Operator::Sub);
    c.add_display(3).unwrap();
    c.evaluate().unwrap();
    assert_eq!(c.left, whole(4));
}

#[test]
fn digit_after_equals_starts_fresh() {
    let mut c = Calc::new();
    press_all(&mut c, &["5", "+", "2", "="]);
    c.add_display(9).unwrap();
    assert_eq!(c.left, whole(9));
    assert_eq!(c.right, None);
    assert!(!c.is_evaluated);
    assert_eq!(c.display(), "9");
}

#[test]
fn clear_resets_operands_and_keeps_flag() {
    let mut c = Calc::new();
    press_all(&mut c, &["4", "*", "6", "="]);
    press_all(&mut c, &["+", "1"]);
    c.reset();
    assert_eq!(c.left, whole(0));
    assert_eq!(c.right, None);
    assert_eq!(c.operator, None);
    assert!(c.is_evaluated);
    assert_eq!(c.display(), "0");
    let mut fresh = Calc::new();
    fresh.reset();
    assert_eq!(fresh.display(), "0");
}

#[test]
fn display_shows_operator_and_right_operand() {
    let mut c = Calc::new();
    c.add_display(3).unwrap();
    assert_eq!(c.display(), "3");
    c.add_symbol(Operator::Add);
    assert_eq!(c.display(), "3 +");
    c.add_display(4).unwrap();
    assert_eq!(c.display(), "3 + 4");
}

#[test]
fn fractions_are_shown_in_decimal() {
    let mut c = Calc::new();
    press_all(&mut c, &["7", "/", "2", "="]);
    assert_eq!(c.left, Number::Finite { num: 7, den: 2 });
    assert_eq!(c.display(), "3.5");
    let mut third = Calc::new();
    press_all(&mut third, &["1", "/", "3", "="]);
    assert_eq!(third.display(), "0.3333333333333333");
    let mut quarter = Calc::new();
    press_all(&mut quarter, &["0", "-", "1", "=", "/", "4", "="]);
    assert_eq!(quarter.display(), "-0.25");
}

#[test]
fn subtraction_below_zero() {
    let mut c = Calc::new();
    press_all(&mut c, &["3", "-", "5", "="]);
    assert_eq!(c.left, whole(-2));
    assert_eq!(c.display(), "-2");
}

#[test]
fn operator_is_replaced_by_the_latest_choice() {
    let mut c = Calc::new();
    press_all(&mut c, &["6", "+", "*", "7"]);
    assert_eq!(c.symbol(), "*");
    assert_eq!(c.display(), "6 * 7");
    press_all(&mut c, &["-"]);
    assert_eq!(c.right, Some(7));
    c.evaluate().unwrap();
    assert_eq!(c.left, whole(-1));
}

#[test]
fn symbol_is_empty_without_operator() {
    let c = Calc::new();
    assert_eq!(c.symbol(), "");
}

#[test]
fn equals_without_operator_changes_nothing() {
    let mut c = Calc::new();
    c.add_display(8).unwrap();
    let before = c;
    c.evaluate().unwrap();
    assert_eq!(c, before);
}

#[test]
fn named_operations_ignore_the_pending_operator() {
    let mut c = Calc::new();
    press_all(&mut c, &["8", "/", "2"]);
    c.mult().unwrap();
    assert_eq!(c.left, whole(16));
    let mut d = Calc::new();
    press_all(&mut d, &["8", "+", "2"]);
    d.sub().unwrap();
    assert_eq!(d.left, whole(6));
    let mut e = Calc::new();
    press_all(&mut e, &["8", "-", "2"]);
    e.add().unwrap();
    assert_eq!(e.left, whole(10));
    let mut f = Calc::new();
    press_all(&mut f, &["8", "*", "2"]);
    f.div().unwrap();
    assert_eq!(f.left, whole(4));
    assert_eq!(f.display(), "4");
}

#[test]
fn set_display_replaces_left_operand() {
    let mut c = Calc::new();
    c.set_display(whole(-12));
    c.add_display(5).unwrap();
    assert_eq!(c.left, whole(-125));
}

#[test]
fn too_many_digits_overflow() {
    let mut c = Calc::new();
    for _ in 0..18 {
        c.add_display(9).unwrap();
    }
    let before = c;
    assert_eq!(c.add_display(9), Err(CalcError::Overflow));
    assert_eq!(c, before);
    assert_eq!(c.display(), "999999999999999999");
    let mut r = Calc::new();
    r.add_symbol(Operator::Add);
    for _ in 0..18 {
        r.add_display(9).unwrap();
    }
    assert_eq!(r.add_display(9), Err(CalcError::Overflow));
    assert_eq!(r.right, Some(999_999_999_999_999_999));
}

#[test]
fn result_out_of_range_overflows() {
    let mut c = Calc::new();
    c.set_display(whole(i64::MAX));
    c.add_symbol(Operator::Add);
    c.add_display(1).unwrap();
    let before = c;
    assert_eq!(c.evaluate(), Err(CalcError::Overflow));
    assert_eq!(c, before);
}

#[test]
fn digit_extends_the_text_of_a_fraction() {
    let mut c = Calc::new();
    c.set_display(Number::Finite { num: 5, den: 2 });
    c.add_display(3).unwrap();
    assert_eq!(c.display(), "2.53");
    assert_eq!(c.left, Number::Finite { num: 253, den: 100 });
    let mut n = Calc::new();
    n.set_display(Number::Finite { num: -1, den: 4 });
    n.add_display(7).unwrap();
    assert_eq!(n.display(), "-0.257");
    let mut z = Calc::new();
    z.set_display(Number::Finite { num: 5, den: 2 });
    z.add_display(0).unwrap();
    assert_eq!(z.left, Number::Finite { num: 5, den: 2 });
    assert_eq!(z.display(), "2.5");
}

#[test]
fn results_are_kept_in_lowest_terms() {
    let mut c = Calc::new();
    c.add_display(5).unwrap();
    for _ in 0..40 {
        press_all(&mut c, &["*", "1", "0", "=", "/", "1", "0", "="]);
    }
    assert_eq!(c.left, whole(5));
    let mut h = Calc::new();
    press_all(&mut h, &["6", "/", "4", "="]);
    assert_eq!(h.left, Number::Finite { num: 3, den: 2 });
    press_all(&mut h, &["*", "2", "="]);
    assert_eq!(h.left, whole(3));
}

#[test]
fn digit_on_a_non_finite_operand_is_a_format_error() {
    for v in [Number::PosInf, Number::NegInf, Number::NaN] {
        let mut c = Calc::new();
        c.set_display(v);
        let before = c;
        assert_eq!(c.add_display(1), Err(CalcError::Format));
        assert_eq!(c, before);
    }
}

#[test]
fn labels_decode_to_keys() {
    assert_eq!(Key::parse("7"), Some(Key::Digit(7)));
    assert_eq!(Key::parse("0"), Some(Key::Digit(0)));
    assert_eq!(Key::parse("+"), Some(Key::Op(Operator::Add)));
    assert_eq!(Key::parse("-"), Some(Key::Op(Operator::Sub)));
    assert_eq!(Key::parse("*"), Some(Key::Op(Operator::Mul)));
    assert_eq!(Key::parse("/"), Some(Key::Op(Operator::Div)));
    assert_eq!(Key::parse("="), Some(Key::Equals));
    assert_eq!(Key::parse("C"), Some(Key::Clear));
    assert_eq!(Key::parse("x"), None);
    assert_eq!(Key::parse("12"), None);
    assert_eq!(Key::parse(""), None);
}

#[test]
fn unknown_label_is_ignored() {
    let mut c = Calc::new();
    press_all(&mut c, &["4", "+"]);
    let before = c;
    assert_eq!(button_press(&mut c, "%"), Ok(()));
    assert_eq!(c, before);
}

#[test]
fn press_applies_keys() {
    let mut c = Calc::new();
    for k in [Key::Digit(1), Key::Digit(2), Key::Op(Operator::Mul), Key::Digit(3), Key::Equals] {
        c.press(k).unwrap();
    }
    assert_eq!(c.display(), "36");
    c.press(Key::Clear).unwrap();
    assert_eq!(c.display(), "0");
}
