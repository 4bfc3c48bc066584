//! The conditional integer codec: `true` and `false` are flags, any other
//! text is read as an unsigned integer.
use crate::text::{
    decimal_text, is_digit, lemma_decimal_text, parse_unsigned, push_decimal, same_text,
    unsigned_text_value,
};
use vstd::prelude::*;
use vstd::string::*;

verus! {

/// A value that is either a count or a flag, never both.
#[derive(Debug, Clone, Copy, PartialEq, Eq, Structural)]
pub enum ConditionalUint {
    Count(u64),
    Flag(bool),
}

/// A text that is neither a flag nor an unsigned integer.
#[derive(Debug, Clone, PartialEq)]
pub struct TypeMismatch {
    pub input: String,
}

/// The value that a text denotes; the two flag words come first.
pub open spec fn conditional_of_text(s: Seq<char>) -> Option<ConditionalUint> {
    if s == "true"@ {
        Some(ConditionalUint::Flag(true))
    } else if s == "false"@ {
        Some(ConditionalUint::Flag(false))
    } else {
        match unsigned_text_value(s) {
            Some(n) => Some(ConditionalUint::Count(n)),
            None => None,
        }
    }
}

/// The text of a value.
pub open spec fn conditional_text(v: ConditionalUint) -> Seq<char> {
    match v {
        ConditionalUint::Count(n) => decimal_text(n as nat),
        ConditionalUint::Flag(true) => "true"@,
        ConditionalUint::Flag(false) => "false"@,
    }
}

/// Reads a conditional integer.
pub fn deserialize(s: &str) -> (r: Result<ConditionalUint, TypeMismatch>)
    ensures
        match r {
            Ok(v) => conditional_of_text(s@) == Some(v),
            Err(e) => conditional_of_text(s@) is None && e.input@ == s@,
        },
{
    if same_text(s, "true") {
        return Ok(ConditionalUint::Flag(true));
    }
    if same_text(s, "false") {
        return Ok(ConditionalUint::Flag(false));
    }
    match parse_unsigned(s) {
        Some(n) => Ok(ConditionalUint::Count(n)),
        None => Err(TypeMismatch { input: String::from_str(s) }),
    }
}

/// Writes a conditional integer: the digits of a count, or the flag's word.
pub fn serialize(v: &ConditionalUint) -> (r: String)
    ensures
        r@ == conditional_text(*v),
{
    match v {
        ConditionalUint::Count(n) => {
            let mut out = String::new();
            push_decimal(&mut out, *n);
            assert(out@ =~= decimal_text(*n as nat));
            out
        },
        ConditionalUint::Flag(true) => String::from_str("true"),
        ConditionalUint::Flag(false) => String::from_str("false"),
    }
}

/// Writing a value and reading the text back gives the same value.
pub proof fn lemma_serialize_then_deserialize(v: ConditionalUint)
    ensures
        conditional_of_text(conditional_text(v)) == Some(v),
{
    reveal_strlit("true");
    reveal_strlit("false");
    match v {
        ConditionalUint::Count(n) => {
            let t = decimal_text(n as nat);
            lemma_decimal_text(n as nat);
            assert(is_digit(t[0]));
            assert(t != "true"@) by {
                assert("true"@[0] == 't');
            }
            assert(t != "false"@) by {
                assert("false"@[0] == 'f');
            }
        },
        ConditionalUint::Flag(b) => {
            assert("false"@ != "true"@) by {
                assert("false"@.len() != "true"@.len());
            }
        },
    }
}

} // verus!
