//! Runtime values in label matchers, and building matcher lists.

use vstd::prelude::*;

use crate::ast::{LabelMatcher, MatchOp};
use crate::text::{hyphenated_hex, signed_decimal, write_decimal, write_signed_decimal};

verus! {

/// Converts a Rust value into the raw (unquoted) content of a PromQL label value.
pub trait PromValue {
    fn to_prom_value(&self) -> String;
}

impl<T: PromValue + ?Sized> PromValue for &T {
    fn to_prom_value(&self) -> (s: String)
        ensures
            call_ensures(T::to_prom_value, (*self,), s),
    {
        (**self).to_prom_value()
    }
}

impl PromValue for str {
    fn to_prom_value(&self) -> (s: String)
        ensures
            s@ == self@,
    {
        String::from_str(self)
    }
}

impl PromValue for String {
    fn to_prom_value(&self) -> (s: String)
        ensures
            s@ == self@,
    {
        self.clone()
    }
}

impl PromValue for bool {
    fn to_prom_value(&self) -> (s: String)
        ensures
            s@ == if *self {
                "true"@
            } else {
                "false"@
            },
    {
        if *self {
            String::from_str("true")
        } else {
            String::from_str("false")
        }
    }
}

/// `i` in base ten.
fn signed_text(i: i128) -> (s: String)
    ensures
        s@ == signed_decimal(i as int),
{
    let mut s = String::new();
    write_signed_decimal(&mut s, i);
    s
}

impl PromValue for i8 {
    fn to_prom_value(&self) -> (s: String)
        ensures
            s@ == signed_decimal(*self as int),
    {
        signed_text(*self as i128)
    }
}

impl PromValue for i16 {
    fn to_prom_value(&self) -> (s: String)
        ensures
            s@ == signed_decimal(*self as int),
    {
        signed_text(*self as i128)
    }
}

impl PromValue for i32 {
    fn to_prom_value(&self) -> (s: String)
        ensures
            s@ == signed_decimal(*self as int),
    {
        signed_text(*self as i128)
    }
}

impl PromValue for i64 {
    fn to_prom_value(&self) -> (s: String)
        ensures
            s@ == signed_decimal(*self as int),
    {
        signed_text(*self as i128)
    }
}

impl PromValue for i128 {
    fn to_prom_value(&self) -> (s: String)
        ensures
            s@ == signed_decimal(*self as int),
    {
        signed_text(*self)
    }
}

impl PromValue for isize {
    fn to_prom_value(&self) -> (s: String)
        ensures
            s@ == signed_decimal(*self as int),
    {
        signed_text(*self as i128)
    }
}

/// `n` in base ten.
fn unsigned_text(n: u128) -> (s: String)
    ensures
        s@ == signed_decimal(n as int),
{
    let mut s = String::new();
    write_decimal(&mut s, n);
    s
}

impl PromValue for u8 {
    fn to_prom_value(&self) -> (s: String)
        ensures
            s@ == signed_decimal(*self as int),
    {
        unsigned_text(*self as u128)
    }
}

impl PromValue for u16 {
    fn to_prom_value(&self) -> (s: String)
        ensures
            s@ == signed_decimal(*self as int),
    {
        unsigned_text(*self as u128)
    }
}

impl PromValue for u32 {
    fn to_prom_value(&self) -> (s: String)
        ensures
            s@ == signed_decimal(*self as int),
    {
        unsigned_text(*self as u128)
    }
}

impl PromValue for u64 {
    fn to_prom_value(&self) -> (s: String)
        ensures
            s@ == signed_decimal(*self as int),
    {
        unsigned_text(*self as u128)
    }
}

impl PromValue for u128 {
    fn to_prom_value(&self) -> (s: String)
        ensures
            s@ == signed_decimal(*self as int),
    {
        unsigned_text(*self)
    }
}

impl PromValue for usize {
    fn to_prom_value(&self) -> (s: String)
        ensures
            s@ == signed_decimal(*self as int),
    {
        unsigned_text(*self as u128)
    }
}

/// The UUID type of the `uuid` crate, carried as an opaque value.
#[verifier::external_type_specification]
#[verifier::external_body]
pub struct ExUuid(uuid::Uuid);

/// The sixteen bytes that make up a UUID, as `uuid::Uuid::as_bytes` gives them.
pub uninterp spec fn uuid_bytes_of(u: uuid::Uuid) -> Seq<u8>;

/// The sixteen bytes of a UUID (`uuid::Uuid::as_bytes`, which returns the
/// UUID's own byte array): the result is `uuid_bytes_of` of the UUID.
#[verifier::external_body]
fn uuid_bytes(u: &uuid::Uuid) -> (bytes: [u8; 16])
    ensures
        bytes@ == uuid_bytes_of(*u),
{
    *u.as_bytes()
}

/// The UUID with the given bytes, in its `Display` form
/// (`uuid::Uuid::from_bytes`, then `to_string`): lowercase hexadecimal,
/// hyphenated as `xxxxxxxx-xxxx-xxxx-xxxx-xxxxxxxxxxxx`.
#[verifier::external_body]
fn uuid_text(bytes: [u8; 16]) -> (s: String)
    ensures
        s@ == hyphenated_hex(bytes@),
{
    uuid::Uuid::from_bytes(bytes).to_string()
}

impl PromValue for uuid::Uuid {
    fn to_prom_value(&self) -> (s: String)
        ensures
            s@ == hyphenated_hex(uuid_bytes_of(*self)),
    {
        let bytes = uuid_bytes(self);
        uuid_text(bytes)
    }
}

/// Append a required label matcher to `out`.
pub fn push_matcher<T: PromValue>(out: &mut Vec<LabelMatcher>, name: &str, op: MatchOp, val: &T)
    ensures
        final(out)@.len() == old(out)@.len() + 1,
        final(out)@.drop_last() == old(out)@,
        final(out)@.last().name@ == name@,
        final(out)@.last().op == op,
        call_ensures(T::to_prom_value, (val,), final(out)@.last().value),
{
    out.push(LabelMatcher { name: String::from_str(name), op, value: val.to_prom_value() });
}

/// Append a label matcher when `val` is `Some`; no-op when `None`.
pub fn push_opt_matcher<T: PromValue>(
    out: &mut Vec<LabelMatcher>,
    name: &str,
    op: MatchOp,
    val: &Option<T>,
)
    ensures
        match *val {
            None => final(out)@ == old(out)@,
            Some(v) => {
                &&& final(out)@.len() == old(out)@.len() + 1
                &&& final(out)@.drop_last() == old(out)@
                &&& final(out)@.last().name@ == name@
                &&& final(out)@.last().op == op
                &&& call_ensures(T::to_prom_value, (&v,), final(out)@.last().value)
            },
        },
{
    if let Some(v) = val {
        push_matcher(out, name, op, v);
    }
}

} // verus!
