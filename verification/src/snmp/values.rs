//! SNMP values and how they are written out.

use vstd::prelude::*;
use crate::text::{chars_to_string, decimal, push_decimal, push_str};

verus! {

/// SNMP value types
#[derive(Debug, Clone, PartialEq, Eq)]
pub enum SnmpValue {
    /// Integer value
    Integer(i64),
    /// String value
    String(String),
    /// Object identifier
    Oid(String),
    /// IP address, in its textual form
    IpAddress(String),
    /// Counter (32-bit)
    Counter32(u32),
    /// Counter (64-bit)
    Counter64(u64),
    /// Gauge (32-bit)
    Gauge32(u32),
    /// Time ticks
    TimeTicks(u32),
    /// Opaque data
    Opaque(Vec<u8>),
    /// Null value
    Null,
    /// No such object
    NoSuchObject,
    /// No such instance
    NoSuchInstance,
    /// End of MIB view
    EndOfMibView,
}

/// The decimal form of a signed integer.
pub open spec fn signed_decimal(i: int) -> Seq<char> {
    if i < 0 {
        seq!['-'] + decimal((-i) as nat)
    } else {
        decimal(i as nat)
    }
}

/// How a value is written out.
pub open spec fn value_text(v: SnmpValue) -> Seq<char> {
    match v {
        SnmpValue::Integer(i) => signed_decimal(i as int),
        SnmpValue::String(s) => s@,
        SnmpValue::Oid(s) => s@,
        SnmpValue::IpAddress(s) => s@,
        SnmpValue::Counter32(c) => decimal(c as nat),
        SnmpValue::Counter64(c) => decimal(c as nat),
        SnmpValue::Gauge32(g) => decimal(g as nat),
        SnmpValue::TimeTicks(t) => decimal(t as nat),
        SnmpValue::Opaque(d) => "Opaque("@ + decimal(d@.len()) + " bytes)"@,
        SnmpValue::Null => "null"@,
        SnmpValue::NoSuchObject => "noSuchObject"@,
        SnmpValue::NoSuchInstance => "noSuchInstance"@,
        SnmpValue::EndOfMibView => "endOfMibView"@,
    }
}

impl SnmpValue {
    /// Check if value represents an error condition
    pub fn is_error(&self) -> (b: bool)
        ensures
            b <==> (*self is NoSuchObject || *self is NoSuchInstance || *self is EndOfMibView),
    {
        match self {
            SnmpValue::NoSuchObject | SnmpValue::NoSuchInstance | SnmpValue::EndOfMibView => true,
            _ => false,
        }
    }

    /// The value written out: numbers in decimal, strings as they are,
    /// opaque data by its size, the exception values by their names.
    pub fn to_string(&self) -> (s: String)
        ensures
            s@ == value_text(*self),
    {
        let mut v: Vec<char> = Vec::new();
        match self {
            SnmpValue::Integer(i) => {
                if *i < 0 {
                    v.push('-');
                    let m: u64 = ((-(*i + 1)) as u64) + 1;
                    push_decimal(&mut v, m);
                    assert(v@ =~= signed_decimal(*i as int));
                } else {
                    push_decimal(&mut v, *i as u64);
                }
            },
            SnmpValue::String(s) => {
                push_str(&mut v, s.as_str());
            },
            SnmpValue::Oid(s) => {
                push_str(&mut v, s.as_str());
            },
            SnmpValue::IpAddress(s) => {
                push_str(&mut v, s.as_str());
            },
            SnmpValue::Counter32(c) => {
                push_decimal(&mut v, *c as u64);
            },
            SnmpValue::Counter64(c) => {
                push_decimal(&mut v, *c);
            },
            SnmpValue::Gauge32(g) => {
                push_decimal(&mut v, *g as u64);
            },
            SnmpValue::TimeTicks(t) => {
                push_decimal(&mut v, *t as u64);
            },
            SnmpValue::Opaque(d) => {
                push_str(&mut v, "Opaque(");
                push_decimal(&mut v, d.len() as u64);
                push_str(&mut v, " bytes)");
            },
            SnmpValue::Null => {
                push_str(&mut v, "null");
            },
            SnmpValue::NoSuchObject => {
                push_str(&mut v, "noSuchObject");
            },
            SnmpValue::NoSuchInstance => {
                push_str(&mut v, "noSuchInstance");
            },
            SnmpValue::EndOfMibView => {
                push_str(&mut v, "endOfMibView");
            },
        }
        assert(v@ =~= value_text(*self));
        chars_to_string(v.as_slice())
    }
}

} // verus!
