//! The text commands that a client may send: the three named positions,
//! or a number in decimal notation.

use vstd::prelude::*;
use crate::servo::{ServoPosition, FULL_DEFLECTION};

pub mod theorems;
pub mod parse;

verus! {

/// `c` is one of `0` to `9`.
pub open spec fn is_digit(c: char) -> bool {
    '0' <= c <= '9'
}

/// `c` is `+` or `-`.
pub open spec fn is_sign(c: char) -> bool {
    c == '+' || c == '-'
}

/// `c` is `e` or `E`.
pub open spec fn is_exponent_mark(c: char) -> bool {
    c == 'e' || c == 'E'
}

/// `c`, in lower case if it is a capital letter of the Latin alphabet.
pub open spec fn lower(c: char) -> char {
    if 'A' <= c <= 'Z' {
        (((c as u8) + 32) as u8) as char
    } else {
        c
    }
}

/// `text` with its capital letters in lower case.
pub open spec fn lowered(text: Seq<char>) -> Seq<char> {
    text.map_values(|c: char| lower(c))
}

/// The first position at or after `from` that holds no digit.
pub open spec fn digits_end(text: Seq<char>, from: int) -> int
    decreases text.len() - from,
{
    if 0 <= from < text.len() && is_digit(text[from]) {
        digits_end(text, from + 1)
    } else {
        from
    }
}

/// The number that a run of digits writes, most significant digit first.
pub open spec fn digits_value(digits: Seq<char>) -> nat
    decreases digits.len(),
{
    if digits.len() == 0 {
        0
    } else {
        digits_value(digits.drop_last()) * 10 + ((digits.last() as u32) - ('0' as u32)) as nat
    }
}

/// Ten to the power `n`.
pub open spec fn pow10(n: nat) -> nat
    decreases n,
{
    if n == 0 {
        1
    } else {
        10 * pow10((n - 1) as nat)
    }
}

/// `value` times ten to the power `shift`, rounded down to a whole number.
pub open spec fn scaled(value: nat, shift: int) -> nat {
    if shift >= 0 {
        value * pow10(shift as nat)
    } else {
        value / pow10((-shift) as nat)
    }
}

/// A number in decimal notation, taken apart.
pub struct Decimal {
    /// It begins with `-`.
    pub negative: bool,
    /// The digits before and after the point, in order.
    pub mantissa: Seq<char>,
    /// How many of them stand after the point.
    pub fraction_len: nat,
    /// The power of ten that follows `e`, or 0.
    pub exponent: int,
}

impl Decimal {
    /// The size of the number in millionths, rounded down.
    pub open spec fn magnitude(self) -> nat {
        scaled(digits_value(self.mantissa), self.exponent - self.fraction_len + 6)
    }

    /// The number in millionths, rounded towards zero and clamped to the
    /// full deflection on either side.
    pub open spec fn units(self) -> int {
        let size = if self.magnitude() > FULL_DEFLECTION {
            FULL_DEFLECTION as int
        } else {
            self.magnitude() as int
        };
        if self.negative {
            -size
        } else {
            size
        }
    }
}

/// Where the parts of a number begin and end in `text`.
pub struct Layout {
    /// End of the sign, if there is one, else 0.
    pub whole_from: int,
    /// End of the digits before the point.
    pub whole_to: int,
    /// Start of the digits after the point.
    pub fraction_from: int,
    /// End of the digits after the point.
    pub fraction_to: int,
    /// An exponent follows.
    pub has_exponent: bool,
    /// Start of the digits of the exponent.
    pub exponent_from: int,
    /// End of the digits of the exponent.
    pub exponent_to: int,
}

/// The parts of `text`, read as far as it follows the notation: an
/// optional sign, digits, an optional point with digits, and an optional
/// exponent made of `e` or `E`, an optional sign and digits.
pub open spec fn layout_of(text: Seq<char>) -> Layout {
    let whole_from: int = if text.len() > 0 && is_sign(text[0]) {
        1
    } else {
        0
    };
    let whole_to = digits_end(text, whole_from);
    let has_point = whole_to < text.len() && text[whole_to] == '.';
    let fraction_from = if has_point {
        whole_to + 1
    } else {
        whole_to
    };
    let fraction_to = digits_end(text, fraction_from);
    let has_exponent = fraction_to < text.len() && is_exponent_mark(text[fraction_to]);
    let sign_at = fraction_to + 1;
    let exponent_from = if has_exponent && sign_at < text.len() && is_sign(text[sign_at]) {
        sign_at + 1
    } else {
        sign_at
    };
    let exponent_to = digits_end(text, exponent_from);
    Layout {
        whole_from,
        whole_to,
        fraction_from,
        fraction_to,
        has_exponent,
        exponent_from,
        exponent_to,
    }
}

impl Layout {
    /// The text is a number: there is a digit before or after the point,
    /// an exponent has a digit, and nothing is left over.
    pub open spec fn complete(self, text: Seq<char>) -> bool {
        &&& (self.whole_to - self.whole_from) + (self.fraction_to - self.fraction_from) >= 1
        &&& self.has_exponent ==> self.exponent_to > self.exponent_from
        &&& text.len() == if self.has_exponent {
            self.exponent_to
        } else {
            self.fraction_to
        }
    }
}

/// The number that `text` writes in decimal notation, if it writes one:
/// `12`, `-0.5`, `+.25`, `3.`, `1e-3`, `2.5E+1`.
pub open spec fn decimal_of(text: Seq<char>) -> Option<Decimal> {
    let at = layout_of(text);
    if at.complete(text) {
        let size = digits_value(text.subrange(at.exponent_from, at.exponent_to)) as int;
        Some(
            Decimal {
                negative: text[0] == '-',
                mantissa: text.subrange(at.whole_from, at.whole_to) + text.subrange(
                    at.fraction_from,
                    at.fraction_to,
                ),
                fraction_len: (at.fraction_to - at.fraction_from) as nat,
                exponent: if !at.has_exponent {
                    0
                } else if text[at.fraction_to + 1] == '-' {
                    -size
                } else {
                    size
                },
            },
        )
    } else {
        None
    }
}

/// Whether `text` names infinity, and if so, whether the negative one: an
/// optional sign and then `inf` or `infinity`, in capital or small
/// letters.
pub open spec fn infinity_of(text: Seq<char>) -> Option<bool> {
    let from: int = if text.len() > 0 && is_sign(text[0]) {
        1
    } else {
        0
    };
    let word = lowered(text.subrange(from, text.len() as int));
    if word == "inf"@ || word == "infinity"@ {
        Some(text[0] == '-')
    } else {
        None
    }
}

/// The position, in millionths of the full deflection, that a numeric
/// command asks for: infinity is the full deflection, any other number its
/// value rounded towards zero and clamped to the full deflection. Text
/// that is neither is no numeric command; `nan` is none.
pub open spec fn number_units(text: Seq<char>) -> Option<int> {
    match infinity_of(text) {
        Some(negative) => Some(
            if negative {
                -(FULL_DEFLECTION as int)
            } else {
                FULL_DEFLECTION as int
            },
        ),
        None => match decimal_of(text) {
            Some(decimal) => Some(decimal.units()),
            None => None,
        },
    }
}

/// The command that `text` spells: `left`, `center` and `right` are the
/// named positions, a number is a custom position, and anything else is no
/// command.
pub open spec fn command_of(text: Seq<char>) -> Option<ServoPosition> {
    if text == "left"@ {
        Some(ServoPosition::Left)
    } else if text == "center"@ {
        Some(ServoPosition::Center)
    } else if text == "right"@ {
        Some(ServoPosition::Right)
    } else {
        match number_units(text) {
            Some(units) => Some(ServoPosition::Custom(units as i32)),
            None => None,
        }
    }
}

} // verus!
