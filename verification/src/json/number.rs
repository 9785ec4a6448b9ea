//! JSON numbers.

use super::model;
use super::model::NumberModel;
use crate::double;
use crate::double::{bits_are_finite, doubles_equal, nearest_to_i64, nearest_to_u64, Double};
use crate::text::{push_decimal, push_signed_decimal};
use vstd::prelude::*;
use vstd::string::*;

verus! {

#[derive(Debug)]
enum Parts {
    PosInt { value: u64 },
    NegInt { negative: i64 },
    Float { double: Double, json: String },
}

/// A JSON number: an integer of 64 bits, or a finite double.
#[derive(Debug)]
pub struct Number {
    parts: Parts,
}

/// `Number::as_f64` of `serde_json` rounds an integer of 64 bits, with a sign
/// or without, to a double; what is claimed is that the decimal text that std
/// displays for it depends on the integer alone.
#[verifier::external_body]
fn display_rounded(value: i128) -> (s: String)
    requires
        i64::MIN <= value <= u64::MAX,
    ensures
        s@ == model::rounded_display(value),
{
    serde_json::Number::from_i128(value).unwrap().as_f64().unwrap().to_string()
}

impl Number {
    /// What the number is.
    pub closed spec fn model(self) -> NumberModel {
        match self.parts {
            Parts::PosInt { value } => NumberModel::PosInt { value },
            Parts::NegInt { negative } => NumberModel::NegInt { negative },
            Parts::Float { double, json } => NumberModel::Float { double: double@, json: json@ },
        }
    }

    #[verifier::type_invariant]
    spec fn parts_fit(self) -> bool {
        model::number_ok(self.model())
    }

    /// The integer `value`.
    pub fn from_u64(value: u64) -> (n: Number)
        ensures
            n.model() == (NumberModel::PosInt { value }),
    {
        Number { parts: Parts::PosInt { value } }
    }

    /// The integer `value`.
    pub fn from_i64(value: i64) -> (n: Number)
        ensures
            n.model() == if value < 0 {
                NumberModel::NegInt { negative: value }
            } else {
                NumberModel::PosInt { value: value as u64 }
            },
    {
        if value < 0 {
            Number { parts: Parts::NegInt { negative: value } }
        } else {
            Number { parts: Parts::PosInt { value: value as u64 } }
        }
    }

    /// The double `value`, with its JSON text. An infinity or a NaN is no JSON
    /// number.
    pub fn from_double(value: Double, json: String) -> (n: Option<Number>)
        ensures
            match n {
                Some(n) => double::is_finite(value.bits) && n.model() == (NumberModel::Float {
                    double: value@,
                    json: json@,
                }),
                None => !double::is_finite(value.bits),
            },
    {
        if bits_are_finite(value.bits) {
            Some(Number { parts: Parts::Float { double: value, json } })
        } else {
            None
        }
    }

    /// The integer, where the number is one that is not negative.
    pub fn as_u64(&self) -> (r: Option<u64>)
        ensures
            r == match self.model() {
                NumberModel::PosInt { value } => Some(value),
                _ => None,
            },
    {
        match &self.parts {
            Parts::PosInt { value } => Some(*value),
            _ => None,
        }
    }

    /// The integer, where the number is one that fits 64 bits with a sign.
    pub fn as_i64(&self) -> (r: Option<i64>)
        ensures
            r == match self.model() {
                NumberModel::PosInt { value } => if value <= i64::MAX {
                    Some(value as i64)
                } else {
                    None
                },
                NumberModel::NegInt { negative } => Some(negative),
                NumberModel::Float { .. } => None,
            },
    {
        match &self.parts {
            Parts::PosInt { value } => if *value <= i64::MAX as u64 {
                Some(*value as i64)
            } else {
                None
            },
            Parts::NegInt { negative } => Some(*negative),
            Parts::Float { .. } => None,
        }
    }

    /// The bit pattern of the double that the number is rounded to.
    pub fn double_bits(&self) -> (bits: u64)
        ensures
            bits == model::number_double(self.model()),
    {
        match &self.parts {
            Parts::PosInt { value } => nearest_to_u64(*value),
            Parts::NegInt { negative } => nearest_to_i64(*negative),
            Parts::Float { double, .. } => double.bits,
        }
    }

    /// The decimal text of the double that the number is rounded to.
    pub fn double_display(&self) -> (s: String)
        ensures
            s@ == model::number_display(self.model()),
    {
        match &self.parts {
            Parts::PosInt { value } => display_rounded(*value as i128),
            Parts::NegInt { negative } => display_rounded(*negative as i128),
            Parts::Float { double, .. } => double.display.clone(),
        }
    }

    /// Appends the number as JSON text.
    pub fn push_text(&self, out: &mut String)
        ensures
            final(out)@ == old(out)@ + model::number_text(self.model()),
    {
        match &self.parts {
            Parts::PosInt { value } => push_decimal(out, *value),
            Parts::NegInt { negative } => push_signed_decimal(out, *negative),
            Parts::Float { json, .. } => out.append(json.as_str()),
        }
    }

    /// Whether two numbers are equal.
    pub fn equals(&self, other: &Number) -> (r: bool)
        ensures
            r == model::same_number(self.model(), other.model()),
    {
        match (&self.parts, &other.parts) {
            (Parts::PosInt { value: x }, Parts::PosInt { value: y }) => *x == *y,
            (Parts::NegInt { negative: x }, Parts::NegInt { negative: y }) => *x == *y,
            (Parts::Float { double: x, .. }, Parts::Float { double: y, .. }) => doubles_equal(
                x.bits,
                y.bits,
            ),
            _ => false,
        }
    }
}

impl Clone for Number {
    fn clone(&self) -> (r: Self)
        ensures
            r.model() == self.model(),
            model::number_ok(self.model()),
    {
        proof {
            use_type_invariant(self);
        }
        let parts: Parts = match &self.parts {
            Parts::PosInt { value } => Parts::PosInt { value: *value },
            Parts::NegInt { negative } => Parts::NegInt { negative: *negative },
            Parts::Float { double, json } => Parts::Float {
                double: double.clone(),
                json: json.clone(),
            },
        };
        Number { parts }
    }
}

}
