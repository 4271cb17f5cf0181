//! The keys of the calculator, decoded from the labels of its buttons.
use vstd::prelude::*;
use crate::calc::{
    Calc, CalcError, Operator, cleared, digit_entered, evaluated, takes_step, with_operator,
};

verus! {

/// A key press.
#[derive(Clone, Copy, Debug, PartialEq, Eq, Structural)]
pub enum Key {
    /// A decimal digit, `0` to `9`.
    Digit(u8),
    /// An operator key.
    Op(Operator),
    /// `=`.
    Equals,
    /// `C`.
    Clear,
}

/// The key of a one-character label.
pub open spec fn key_of_char(ch: char) -> Option<Key> {
    if '0' <= ch && ch <= '9' {
        Some(Key::Digit((ch as u32 - '0' as u32) as u8))
    } else if ch == '+' {
        Some(Key::Op(Operator::Add))
    } else if ch == '-' {
        Some(Key::Op(Operator::Sub))
    } else if ch == '*' {
        Some(Key::Op(Operator::Mul))
    } else if ch == '/' {
        Some(Key::Op(Operator::Div))
    } else if ch == '=' {
        Some(Key::Equals)
    } else if ch == 'C' {
        Some(Key::Clear)
    } else {
        None
    }
}

/// The key of a button label: one of `0`..`9`, `+`, `-`, `*`, `/`, `=`, `C`.
pub open spec fn key_of(label: Seq<char>) -> Option<Key> {
    if label.len() == 1 {
        key_of_char(label[0])
    } else {
        None
    }
}

/// The accumulator after the key `k`.
pub open spec fn pressed(c: Calc, k: Key) -> Result<Calc, CalcError> {
    match k {
        Key::Digit(d) => digit_entered(c, d as nat),
        Key::Op(op) => Ok(with_operator(c, op)),
        Key::Equals => evaluated(c),
        Key::Clear => Ok(cleared(c)),
    }
}

impl Key {
    /// Whether a digit key holds a decimal digit.
    pub open spec fn wf(&self) -> bool {
        self matches Key::Digit(d) ==> d < 10
    }

    /// Decodes a button label; any other text is no key.
    pub fn parse(label: &str) -> (r: Option<Key>)
        ensures
            r == key_of(label@),
            r matches Some(k) ==> k.wf(),
    {
        if label.unicode_len() != 1 {
            return None;
        }
        let ch = label.get_char(0);
        if '0' <= ch && ch <= '9' {
            Some(Key::Digit((ch as u32 - '0' as u32) as u8))
        } else if ch == '+' {
            Some(Key::Op(Operator::Add))
        } else if ch == '-' {
            Some(Key::Op(Operator::Sub))
        } else if ch == '*' {
            Some(Key::Op(Operator::Mul))
        } else if ch == '/' {
            Some(Key::Op(Operator::Div))
        } else if ch == '=' {
            Some(Key::Equals)
        } else if ch == 'C' {
            Some(Key::Clear)
        } else {
            None
        }
    }
}

impl Calc {
    /// Applies the key `k`.
    pub fn press(&mut self, k: Key) -> (r: Result<(), CalcError>)
        requires
            old(self).wf(),
            k.wf(),
        ensures
            final(self).wf(),
            takes_step(*old(self), *final(self), r, pressed(*old(self), k)),
    {
        match k {
            Key::Digit(d) => self.add_display(d),
            Key::Op(op) => {
                self.add_symbol(op);
                Ok(())
            },
            Key::Equals => self.evaluate(),
            Key::Clear => {
                self.reset();
                Ok(())
            },
        }
    }
}

/// Applies the button labelled `val`; a label that is no key changes nothing.
pub fn button_press(calc: &mut Calc, val: &str) -> (r: Result<(), CalcError>)
    requires
        old(calc).wf(),
    ensures
        final(calc).wf(),
        match key_of(val@) {
            Some(k) => takes_step(*old(calc), *final(calc), r, pressed(*old(calc), k)),
            None => r is Ok && *final(calc) == *old(calc),
        },
{
    match Key::parse(val) {
        Some(k) => calc.press(k),
        None => Ok(()),
    }
}

} // verus!
