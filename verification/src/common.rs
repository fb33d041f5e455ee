//! A string value that is either borrowed from the input or owned.

use vstd::prelude::*;
use vstd::string::*;
use vstd::utf8::*;
use vstd::std_specs::cmp::PartialEqSpecImpl;
use vstd::std_specs::convert::FromSpecImpl;
use crate::text::{parse_u8, parse_u8_spec, str_eq};

verus! {

/// Text that either points into the buffer it was parsed from or owns its
/// characters. The parser borrows wherever the input holds the value as it
/// stands, and allocates only where an escape had to be resolved.
///
/// Everything observable about a value, its length, its equality and its view,
/// depends on the characters alone and never on the variant.
#[derive(Debug, Clone)]
pub enum StringOrStr<'a> {
    /// Text that owns its characters.
    String(String),
    /// Text borrowed from a buffer.
    Str(&'a str),
}

impl<'a> View for StringOrStr<'a> {
    type V = Seq<char>;

    open spec fn view(&self) -> Seq<char> {
        match self {
            StringOrStr::String(s) => s@,
            StringOrStr::Str(s) => s@,
        }
    }
}

impl<'a> StringOrStr<'a> {
    /// The UTF-8 bytes of the text.
    pub open spec fn bytes(&self) -> Seq<u8> {
        encode_utf8(self@)
    }

    /// Whether the value borrows its text.
    pub open spec fn is_borrowed(&self) -> bool {
        self is Str
    }

    /// The text as a string slice.
    pub fn as_str(&self) -> (r: &str)
        ensures
            r@ == self@,
    {
        match self {
            StringOrStr::String(s) => s.as_str(),
            StringOrStr::Str(s) => s,
        }
    }

    /// Length of the text in bytes.
    pub fn len(&self) -> (r: usize)
        ensures
            r == self.bytes().len(),
    {
        self.as_str().as_bytes().len()
    }

    /// The text read as a `u8` in decimal, where it writes one.
    pub fn parse(&self) -> (r: Option<u8>)
        ensures
            r == parse_u8_spec(self.bytes()),
    {
        parse_u8(self.as_str().as_bytes())
    }

    /// Whether the text is empty.
    pub fn is_empty(&self) -> (r: bool)
        ensures
            r == (self@.len() == 0),
    {
        self.as_str().is_empty()
    }
}

impl<'a> PartialEq for StringOrStr<'a> {
    fn eq(&self, other: &Self) -> (r: bool) {
        str_eq(self.as_str(), other.as_str())
    }
}

impl<'a> PartialEqSpecImpl for StringOrStr<'a> {
    open spec fn obeys_eq_spec() -> bool {
        true
    }

    open spec fn eq_spec(&self, other: &Self) -> bool {
        self@ == other@
    }
}

impl<'a> Eq for StringOrStr<'a> {}

impl<'a> From<&'a str> for StringOrStr<'a> {
    fn from(s: &'a str) -> (r: Self) {
        StringOrStr::Str(s)
    }
}

impl<'a> FromSpecImpl<&'a str> for StringOrStr<'a> {
    open spec fn obeys_from_spec() -> bool {
        true
    }

    open spec fn from_spec(s: &'a str) -> Self {
        StringOrStr::Str(s)
    }
}

impl<'a> From<String> for StringOrStr<'a> {
    fn from(s: String) -> (r: Self) {
        StringOrStr::String(s)
    }
}

impl<'a> FromSpecImpl<String> for StringOrStr<'a> {
    open spec fn obeys_from_spec() -> bool {
        true
    }

    open spec fn from_spec(s: String) -> Self {
        StringOrStr::String(s)
    }
}

} // verus!
