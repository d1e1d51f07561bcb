//! Conversion between typed values and attribute text.
//!
//! The hardware transports every attribute as text. [`ToAttribute`] says
//! what text a value is written as, [`FromAttribute`] what value a text is
//! read as, and [`Attribute`] that reading back what was written gives the
//! value again.

use vstd::prelude::*;
use crate::errors::{Error, Result};
use crate::text::{
    bool_text, bool_to_text, int_text, lemma_bool_text_round_trip, lemma_int_text_round_trip,
    parse_bool, parse_signed, parse_unsigned, signed_text, text_bool, text_int_within,
    unsigned_text,
};

verus! {

/// Trait to convert a value to a proper attribute string.
pub trait ToAttribute {
    /// The text that the value is written as.
    spec fn attr_text(&self) -> Seq<char>;

    /// Converts the value to an attribute string that can be sent to the
    /// hardware.
    fn to_attr(&self) -> (r: Result<String>)
        ensures
            r is Ok,
            r->Ok_0@ == self.attr_text(),
    ;
}

/// Trait to convert an attribute string to a typed value.
pub trait FromAttribute: Sized {
    /// Whether the text denotes a value of this type.
    spec fn is_attr_text(s: Seq<char>) -> bool;

    /// Whether `v` is the value that the text denotes.
    spec fn is_attr_value(s: Seq<char>, v: Self) -> bool;

    /// Converts a string attribute to a value type.
    fn from_attr(s: &str) -> (r: Result<Self>)
        ensures
            Self::is_attr_text(s@) ==> r is Ok && Self::is_attr_value(s@, r->Ok_0),
            !Self::is_attr_text(s@) ==> r == Err::<Self, Error>(Error::StringConversionError),
    ;
}

/// A type whose values survive being written as attribute text and read
/// back.
pub trait Attribute: ToAttribute + FromAttribute {
    /// The text that a value is written as denotes that value.
    proof fn lemma_round_trip(v: Self)
        ensures
            Self::is_attr_text(v.attr_text()),
            Self::is_attr_value(v.attr_text(), v),
    ;
}

/// Attribute conversion for the bool type.
///
/// Booleans are written as "1" and "0", never as "true" and "false": this
/// is what sysfs expects.
impl ToAttribute for bool {
    open spec fn attr_text(&self) -> Seq<char> {
        bool_text(*self)
    }

    fn to_attr(&self) -> (r: Result<String>) {
        Ok(bool_to_text(*self))
    }
}

/// Every text reads as a boolean: the text "0", white space around it
/// apart, is false, and any other text is true.
impl FromAttribute for bool {
    open spec fn is_attr_text(s: Seq<char>) -> bool {
        true
    }

    open spec fn is_attr_value(s: Seq<char>, v: bool) -> bool {
        v == text_bool(s)
    }

    fn from_attr(s: &str) -> (r: Result<bool>) {
        Ok(parse_bool(s))
    }
}

impl Attribute for bool {
    proof fn lemma_round_trip(v: bool) {
        lemma_bool_text_round_trip(v);
    }
}

impl ToAttribute for str {
    open spec fn attr_text(&self) -> Seq<char> {
        self@
    }

    fn to_attr(&self) -> (r: Result<String>) {
        Ok(self.to_owned())
    }
}

impl ToAttribute for &str {
    open spec fn attr_text(&self) -> Seq<char> {
        self@
    }

    fn to_attr(&self) -> (r: Result<String>) {
        Ok((*self).to_owned())
    }
}

impl ToAttribute for String {
    open spec fn attr_text(&self) -> Seq<char> {
        self@
    }

    fn to_attr(&self) -> (r: Result<String>) {
        Ok(self.clone())
    }
}

impl FromAttribute for String {
    open spec fn is_attr_text(s: Seq<char>) -> bool {
        true
    }

    open spec fn is_attr_value(s: Seq<char>, v: String) -> bool {
        v@ == s
    }

    fn from_attr(s: &str) -> (r: Result<String>) {
        Ok(s.to_owned())
    }
}

impl Attribute for String {
    proof fn lemma_round_trip(v: String) {
    }
}

impl ToAttribute for i32 {
    open spec fn attr_text(&self) -> Seq<char> {
        int_text(*self as int)
    }

    fn to_attr(&self) -> (r: Result<String>) {
        Ok(signed_text(*self as i128))
    }
}

impl FromAttribute for i32 {
    open spec fn is_attr_text(s: Seq<char>) -> bool {
        text_int_within(s, true, i32::MIN as int, i32::MAX as int) is Some
    }

    open spec fn is_attr_value(s: Seq<char>, v: i32) -> bool {
        text_int_within(s, true, i32::MIN as int, i32::MAX as int) == Some(v as int)
    }

    fn from_attr(s: &str) -> (r: Result<i32>) {
        match parse_signed(s, i32::MIN as i128, i32::MAX as i128) {
            Some(v) => Ok(v as i32),
            None => Err(Error::StringConversionError),
        }
    }
}

impl Attribute for i32 {
    proof fn lemma_round_trip(v: i32) {
        lemma_int_text_round_trip(v as int, true);
    }
}

impl ToAttribute for i64 {
    open spec fn attr_text(&self) -> Seq<char> {
        int_text(*self as int)
    }

    fn to_attr(&self) -> (r: Result<String>) {
        Ok(signed_text(*self as i128))
    }
}

impl FromAttribute for i64 {
    open spec fn is_attr_text(s: Seq<char>) -> bool {
        text_int_within(s, true, i64::MIN as int, i64::MAX as int) is Some
    }

    open spec fn is_attr_value(s: Seq<char>, v: i64) -> bool {
        text_int_within(s, true, i64::MIN as int, i64::MAX as int) == Some(v as int)
    }

    fn from_attr(s: &str) -> (r: Result<i64>) {
        match parse_signed(s, i64::MIN as i128, i64::MAX as i128) {
            Some(v) => Ok(v as i64),
            None => Err(Error::StringConversionError),
        }
    }
}

impl Attribute for i64 {
    proof fn lemma_round_trip(v: i64) {
        lemma_int_text_round_trip(v as int, true);
    }
}

impl ToAttribute for i128 {
    open spec fn attr_text(&self) -> Seq<char> {
        int_text(*self as int)
    }

    fn to_attr(&self) -> (r: Result<String>) {
        Ok(signed_text(*self as i128))
    }
}

impl FromAttribute for i128 {
    open spec fn is_attr_text(s: Seq<char>) -> bool {
        text_int_within(s, true, i128::MIN as int, i128::MAX as int) is Some
    }

    open spec fn is_attr_value(s: Seq<char>, v: i128) -> bool {
        text_int_within(s, true, i128::MIN as int, i128::MAX as int) == Some(v as int)
    }

    fn from_attr(s: &str) -> (r: Result<i128>) {
        match parse_signed(s, i128::MIN as i128, i128::MAX as i128) {
            Some(v) => Ok(v as i128),
            None => Err(Error::StringConversionError),
        }
    }
}

impl Attribute for i128 {
    proof fn lemma_round_trip(v: i128) {
        lemma_int_text_round_trip(v as int, true);
    }
}

impl ToAttribute for u32 {
    open spec fn attr_text(&self) -> Seq<char> {
        int_text(*self as int)
    }

    fn to_attr(&self) -> (r: Result<String>) {
        Ok(unsigned_text(*self as u128))
    }
}

impl FromAttribute for u32 {
    open spec fn is_attr_text(s: Seq<char>) -> bool {
        text_int_within(s, false, 0, u32::MAX as int) is Some
    }

    open spec fn is_attr_value(s: Seq<char>, v: u32) -> bool {
        text_int_within(s, false, 0, u32::MAX as int) == Some(v as int)
    }

    fn from_attr(s: &str) -> (r: Result<u32>) {
        match parse_unsigned(s, u32::MAX as u128) {
            Some(v) => Ok(v as u32),
            None => Err(Error::StringConversionError),
        }
    }
}

impl Attribute for u32 {
    proof fn lemma_round_trip(v: u32) {
        lemma_int_text_round_trip(v as int, false);
    }
}

impl ToAttribute for u64 {
    open spec fn attr_text(&self) -> Seq<char> {
        int_text(*self as int)
    }

    fn to_attr(&self) -> (r: Result<String>) {
        Ok(unsigned_text(*self as u128))
    }
}

impl FromAttribute for u64 {
    open spec fn is_attr_text(s: Seq<char>) -> bool {
        text_int_within(s, false, 0, u64::MAX as int) is Some
    }

    open spec fn is_attr_value(s: Seq<char>, v: u64) -> bool {
        text_int_within(s, false, 0, u64::MAX as int) == Some(v as int)
    }

    fn from_attr(s: &str) -> (r: Result<u64>) {
        match parse_unsigned(s, u64::MAX as u128) {
            Some(v) => Ok(v as u64),
            None => Err(Error::StringConversionError),
        }
    }
}

impl Attribute for u64 {
    proof fn lemma_round_trip(v: u64) {
        lemma_int_text_round_trip(v as int, false);
    }
}

impl ToAttribute for u128 {
    open spec fn attr_text(&self) -> Seq<char> {
        int_text(*self as int)
    }

    fn to_attr(&self) -> (r: Result<String>) {
        Ok(unsigned_text(*self as u128))
    }
}

impl FromAttribute for u128 {
    open spec fn is_attr_text(s: Seq<char>) -> bool {
        text_int_within(s, false, 0, u128::MAX as int) is Some
    }

    open spec fn is_attr_value(s: Seq<char>, v: u128) -> bool {
        text_int_within(s, false, 0, u128::MAX as int) == Some(v as int)
    }

    fn from_attr(s: &str) -> (r: Result<u128>) {
        match parse_unsigned(s, u128::MAX as u128) {
            Some(v) => Ok(v as u128),
            None => Err(Error::StringConversionError),
        }
    }
}

impl Attribute for u128 {
    proof fn lemma_round_trip(v: u128) {
        lemma_int_text_round_trip(v as int, false);
    }
}

} // verus!
