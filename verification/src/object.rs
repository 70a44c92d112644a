//! The value model a future evaluator would produce from the syntax tree:
//! integers, booleans, a return-value wrapper and null, with the truthiness
//! rule and the textual rendering both pinned down by spec functions.

use vstd::prelude::*;
use vstd::string::StringExecFns;
use crate::text::{decimal_string, spec_decimal_digits};

verus! {

/// A runtime value: a 64-bit integer, a boolean, a wrapped return value or
/// null.
#[derive(Debug, PartialEq, Eq)]
pub enum Object {
    Integer(i64),
    Boolean(bool),
    ReturnValue(Box<Object>),
    Null,
}

/// Truthiness: integers are always truthy, booleans by their value, null is
/// never truthy, and a return value delegates to what it wraps.
pub open spec fn spec_is_truthy(o: Object) -> bool
    decreases o,
{
    match o {
        Object::Integer(_) => true,
        Object::Boolean(b) => b,
        Object::Null => false,
        Object::ReturnValue(inner) => spec_is_truthy(*inner),
    }
}

/// Textual rendering: integers in decimal (with a leading minus sign when
/// negative), booleans as `true`/`false`, null as `null`, and a return value
/// as what it wraps.
pub open spec fn spec_object_text(o: Object) -> Seq<char>
    decreases o,
{
    match o {
        Object::Integer(n) => if n < 0 {
            seq!['-'] + spec_decimal_digits((-n) as nat)
        } else {
            spec_decimal_digits(n as nat)
        },
        Object::Boolean(b) => if b {
            "true"@
        } else {
            "false"@
        },
        Object::Null => "null"@,
        Object::ReturnValue(inner) => spec_object_text(*inner),
    }
}

impl Object {
    /// Whether the value counts as true in a condition.
    pub fn is_thruthy(&self) -> (r: bool)
        ensures
            r == spec_is_truthy(*self),
        decreases self,
    {
        match self {
            Object::Integer(_) => true,
            Object::Boolean(b) => *b,
            Object::Null => false,
            Object::ReturnValue(inner) => inner.is_thruthy(),
        }
    }

    /// Renders the value as text, exactly as [`spec_object_text`] states.
    pub fn to_text(&self) -> (s: String)
        ensures
            s@ == spec_object_text(*self),
        decreases self,
    {
        match self {
            Object::Integer(n) => {
                if *n < 0 {
                    let magnitude: u64 = (-(*n as i128)) as u64;
                    let mut s = String::from_str("-");
                    let digits = decimal_string(magnitude);
                    s.append(digits.as_str());
                    proof {
                        reveal_strlit("-");
                        assert("-"@ =~= seq!['-']);
                        assert(s@ =~= spec_object_text(*self));
                    }
                    s
                } else {
                    let s = decimal_string(*n as u64);
                    s
                }
            },
            Object::Boolean(b) => if *b {
                String::from_str("true")
            } else {
                String::from_str("false")
            },
            Object::Null => String::from_str("null"),
            Object::ReturnValue(inner) => inner.to_text(),
        }
    }
}

} // verus!
