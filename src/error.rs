//! The one error kind of every conversion: a human-readable message.
use vstd::prelude::*;

use crate::text::{chars_of, push_all, push_str, string_of};

verus! {

/// A failed conversion, carrying the text that says why.
#[derive(Debug)]
pub struct ConversionError(pub String);

impl ConversionError {
    /// The message carried.
    pub fn message(&self) -> (r: String)
        ensures
            r@ == self.0@,
    {
        self.0.clone()
    }

    /// A message made of what was being done and the underlying cause:
    /// `"<context>: <cause>"`.
    pub fn with_cause(context: &str, cause: &str) -> (r: ConversionError)
        ensures
            r.0@ == context@ + ": "@ + cause@,
    {
        let mut m: Vec<char> = chars_of(context);
        push_str(&mut m, ": ");
        let c = chars_of(cause);
        push_all(&mut m, &c);
        ConversionError(string_of(&m))
    }
}

impl From<String> for ConversionError {
    fn from(s: String) -> (r: ConversionError) {
        ConversionError(s)
    }
}

impl vstd::std_specs::convert::FromSpecImpl<String> for ConversionError {
    open spec fn obeys_from_spec() -> bool {
        true
    }

    open spec fn from_spec(s: String) -> ConversionError {
        ConversionError(s)
    }
}

impl<'a> From<&'a str> for ConversionError {
    fn from(s: &'a str) -> (r: ConversionError) {
        ConversionError(string_of(&chars_of(s)))
    }
}

impl<'a> vstd::std_specs::convert::FromSpecImpl<&'a str> for ConversionError {
    open spec fn obeys_from_spec() -> bool {
        false
    }

    open spec fn from_spec(s: &'a str) -> ConversionError {
        arbitrary()
    }
}

impl From<ConversionError> for String {
    fn from(e: ConversionError) -> (r: String) {
        e.0
    }
}

impl vstd::std_specs::convert::FromSpecImpl<ConversionError> for String {
    open spec fn obeys_from_spec() -> bool {
        true
    }

    open spec fn from_spec(e: ConversionError) -> String {
        e.0
    }
}

} // verus!
