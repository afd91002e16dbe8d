//! What an SNMP session computes around its requests: parsing the OIDs it
//! asks for, and turning the values a device answers with into
//! [`SnmpValue`]s. The requests themselves are made by the caller.

use vstd::prelude::*;
use crate::snmp::config::SnmpError;
use crate::snmp::values::SnmpValue;
use crate::template::filters::{parse_u32, parse_u32_exec};
use crate::text::{chars_to_string, decimal, push_decimal, push_str, split_char, split_char_exec, str_to_chars};

verus! {

#[verifier::external_type_specification]
#[verifier::external_body]
pub struct ExObjectIdentifier(::csnmp::ObjectIdentifier);

/// The text of an object identifier without one leading and one trailing
/// dot.
pub open spec fn oid_body(text: Seq<char>) -> Seq<char> {
    let a = if text.len() > 0 && text[0] == '.' { text.drop_first() } else { text };
    if a.len() > 0 && a.last() == '.' { a.drop_last() } else { a }
}

/// Whether `csnmp::ObjectIdentifier::from_str` accepts the text: with one
/// leading and one trailing dot taken off, it is empty, or it is at most 128
/// dot-separated pieces, each of which `str::parse::<u32>` accepts.
pub open spec fn oid_parses(text: Seq<char>) -> bool {
    let b = oid_body(text);
    ||| b.len() == 0
    ||| {
        let ps = split_char(b, '.');
        &&& ps.len() <= 128
        &&& forall|i: int| 0 <= i < ps.len() ==> (#[trigger] parse_u32(ps[i])) is Some
    }
}

/// The sub-identifiers of an OID text: with one leading and one trailing
/// dot taken off, none for an empty text, else each dot-separated piece as
/// the number it reads as.
pub open spec fn arcs(text: Seq<char>) -> Seq<u32> {
    let b = oid_body(text);
    if b.len() == 0 {
        Seq::empty()
    } else {
        split_char(b, '.').map_values(|p: Seq<char>| parse_u32(p)->0)
    }
}

/// Read an OID text into its sub-identifiers, as
/// `csnmp::ObjectIdentifier::from_str` reads it: `None` when the text is not
/// an OID.
pub fn oid_arcs(text: &str) -> (r: Option<Vec<u32>>)
    ensures
        r is Some <==> oid_parses(text@),
        r matches Some(v) ==> v@ == arcs(text@) && v@.len() <= 128,
{
    let cs = str_to_chars(text);
    let mut lo: usize = 0;
    let mut hi: usize = cs.len();
    if hi > 0 && cs[0] == '.' {
        lo = 1;
    }
    if hi > lo && cs[hi - 1] == '.' {
        hi = hi - 1;
    }
    let body = vstd::slice::slice_subrange(cs.as_slice(), lo, hi);
    proof {
        let t = text@;
        let a = if t.len() > 0 && t[0] == '.' { t.drop_first() } else { t };
        assert(a =~= t.subrange(lo as int, t.len() as int));
        assert(body@ =~= oid_body(t));
    }
    let mut out: Vec<u32> = Vec::new();
    if body.len() == 0 {
        return Some(out);
    }
    let pieces = split_char_exec(body, '.');
    let ghost ps = split_char(body@, '.');
    assert(pieces@.len() == ps.len());
    if pieces.len() > 128 {
        return None;
    }
    let mut i: usize = 0;
    while i < pieces.len()
        invariant
            i <= pieces@.len(),
            pieces@.len() <= 128,
            pieces@.map_values(|l: Vec<char>| l@) == ps,
            ps == split_char(oid_body(text@), '.'),
            oid_body(text@).len() > 0,
            out@.len() == i,
            forall|k: int| 0 <= k < i ==> (#[trigger] parse_u32(ps[k])) is Some && out@[k] == parse_u32(ps[k])->0,
        decreases pieces.len() - i,
    {
        assert(ps[i as int] == pieces@[i as int]@);
        match parse_u32_exec(pieces[i].as_slice()) {
            Some(n) => {
                out.push(n);
            },
            None => {
                assert(parse_u32(ps[i as int]) is None);
                return None;
            },
        }
        i = i + 1;
    }
    assert(out@ =~= ps.map_values(|p: Seq<char>| parse_u32(p)->0));
    Some(out)
}

/// The sub-identifiers an object identifier holds
/// (`csnmp::ObjectIdentifier::as_slice`).
pub uninterp spec fn identifier_arcs(o: ::csnmp::ObjectIdentifier) -> Seq<u32>;

/// `<csnmp::ObjectIdentifier as TryFrom<&[u32]>>::try_from`: the identifier
/// holding the given sub-identifiers. The crate refuses more than 128 of
/// them, so they are required to be at most that many.
#[verifier::external_body]
fn object_identifier(sub_identifiers: &[u32]) -> (o: ::csnmp::ObjectIdentifier)
    requires
        sub_identifiers@.len() <= 128,
    ensures
        identifier_arcs(o) == sub_identifiers@,
{
    ::csnmp::ObjectIdentifier::try_from(sub_identifiers).unwrap()
}

/// Parse an OID text into an object identifier: `None` when the text is not
/// an OID.
pub fn parse_oid(text: &str) -> (r: Option<::csnmp::ObjectIdentifier>)
    ensures
        r is Some <==> oid_parses(text@),
        r matches Some(o) ==> identifier_arcs(o) == arcs(text@),
{
    match oid_arcs(text) {
        Some(v) => Some(object_identifier(v.as_slice())),
        None => None,
    }
}

/// The first text among `oids` that is not an OID, if any.
pub open spec fn first_invalid_oid(oids: Seq<Seq<char>>) -> Option<Seq<char>>
    decreases oids.len(),
{
    if oids.len() == 0 {
        None
    } else if !oid_parses(oids[0]) {
        Some(oids[0])
    } else {
        first_invalid_oid(oids.drop_first())
    }
}

pub open spec fn texts(oids: Seq<&str>) -> Seq<Seq<char>> {
    oids.map_values(|s: &str| s@)
}

/// Parse OID strings into object identifiers: all of them, or the error
/// naming the first that is not one.
pub fn parse_oids(oids: &[&str]) -> (r: Result<Vec<::csnmp::ObjectIdentifier>, SnmpError>)
    ensures
        match first_invalid_oid(texts(oids@)) {
            None => r matches Ok(v) && v@.len() == oids@.len() && forall|i: int|
                0 <= i < v@.len() ==> #[trigger] identifier_arcs(v@[i]) == arcs(oids@[i]@),
            Some(bad) => r matches Err(SnmpError::InvalidOid { oid }) && oid@ == bad,
        },
{
    let ghost all = texts(oids@);
    let mut out: Vec<::csnmp::ObjectIdentifier> = Vec::new();
    let mut i: usize = 0;
    assert(all.skip(0) =~= all);
    while i < oids.len()
        invariant
            i <= oids@.len(),
            all == texts(oids@),
            out@.len() == i,
            forall|k: int| 0 <= k < i ==> #[trigger] identifier_arcs(out@[k]) == arcs(oids@[k]@),
            first_invalid_oid(all) == first_invalid_oid(all.skip(i as int)),
        decreases oids.len() - i,
    {
        let s: &str = oids[i];
        proof {
            let rest = all.skip(i as int);
            assert(rest[0] == s@);
            assert(rest.drop_first() =~= all.skip(i + 1));
        }
        match parse_oid(s) {
            Some(o) => {
                out.push(o);
            },
            None => {
                return Err(SnmpError::InvalidOid { oid: s.to_string() });
            },
        }
        i = i + 1;
    }
    assert(all.skip(i as int) =~= Seq::<Seq<char>>::empty());
    Ok(out)
}

// ---------------------------------------------------------------------------
// Values a device answers with
// ---------------------------------------------------------------------------

/// A value as an SNMP response carries it (`csnmp::ObjectValue`), an
/// object identifier by its dotted text and an IPv4 address by its octets.
#[derive(Debug, Clone, PartialEq, Eq)]
pub enum ObjectValueData {
    Integer(i32),
    String(Vec<u8>),
    ObjectId(String),
    IpAddress([u8; 4]),
    Counter32(u32),
    Unsigned32(u32),
    TimeTicks(u32),
    Opaque(Vec<u8>),
    Counter64(u64),
}

/// The text `std::str::from_utf8` decodes the bytes to, or `None` when they
/// are not UTF-8.
pub uninterp spec fn utf8_decoded(bytes: Seq<u8>) -> Option<Seq<char>>;

/// `std::str::from_utf8`: the bytes' text when they are valid UTF-8.
#[verifier::external_body]
fn decode_utf8(bytes: &[u8]) -> (r: Option<String>)
    ensures
        match r {
            Some(s) => utf8_decoded(bytes@) == Some(s@),
            None => utf8_decoded(bytes@) is None,
        },
{
    std::str::from_utf8(bytes).ok().map(|s| s.to_string())
}

pub open spec fn hex_digit(d: u8) -> char {
    if d < 10 {
        ('0' as u8 + d) as char
    } else {
        ('a' as u8 + (d - 10)) as char
    }
}

/// Each byte as two lowercase hexadecimal digits.
pub open spec fn hex_of(bytes: Seq<u8>) -> Seq<char>
    decreases bytes.len(),
{
    if bytes.len() == 0 {
        Seq::empty()
    } else {
        hex_of(bytes.drop_last()) + seq![hex_digit(bytes.last() / 16), hex_digit(bytes.last() % 16)]
    }
}

/// The text of a string value: its UTF-8 text, else `0x` and its bytes in
/// hexadecimal.
pub open spec fn string_value_text(bytes: Seq<u8>) -> Seq<char> {
    match utf8_decoded(bytes) {
        Some(t) => t,
        None => "0x"@ + hex_of(bytes),
    }
}

pub open spec fn dotted_octets(o: [u8; 4]) -> Seq<char> {
    decimal(o[0] as nat) + "."@ + decimal(o[1] as nat) + "."@ + decimal(o[2] as nat) + "."@ + decimal(o[3] as nat)
}

/// The [`SnmpValue`] a response value stands for; `Unsigned32` has none
/// and becomes `Null`.
pub open spec fn converted(v: ObjectValueData, r: SnmpValue) -> bool {
    match v {
        ObjectValueData::Integer(i) => r == SnmpValue::Integer(i as i64),
        ObjectValueData::String(b) => r matches SnmpValue::String(s) && s@ == string_value_text(b@),
        ObjectValueData::ObjectId(t) => r matches SnmpValue::Oid(s) && s@ == t@,
        ObjectValueData::IpAddress(o) => r matches SnmpValue::IpAddress(s) && s@ == dotted_octets(o),
        ObjectValueData::Counter32(c) => r == SnmpValue::Counter32(c),
        ObjectValueData::Counter64(c) => r == SnmpValue::Counter64(c),
        ObjectValueData::TimeTicks(t) => r == SnmpValue::TimeTicks(t),
        ObjectValueData::Opaque(b) => r matches SnmpValue::Opaque(o) && o@ == b@,
        ObjectValueData::Unsigned32(_) => r == SnmpValue::Null,
    }
}

fn hex_digit_exec(d: u8) -> (c: char)
    requires
        d < 16,
    ensures
        c == hex_digit(d),
{
    if d < 10 {
        ((48u8 + d) as char)
    } else {
        ((97u8 + (d - 10)) as char)
    }
}

fn hex_string(bytes: &[u8]) -> (s: String)
    ensures
        s@ == "0x"@ + hex_of(bytes@),
{
    let mut v: Vec<char> = Vec::new();
    push_str(&mut v, "0x");
    let ghost start = v@;
    let mut i: usize = 0;
    while i < bytes.len()
        invariant
            i <= bytes@.len(),
            v@ == start + hex_of(bytes@.take(i as int)),
        decreases bytes.len() - i,
    {
        let b = bytes[i];
        v.push(hex_digit_exec(b / 16));
        v.push(hex_digit_exec(b % 16));
        proof {
            let t = bytes@.take(i + 1);
            assert(t.drop_last() =~= bytes@.take(i as int));
            assert(t.last() == b);
            assert(v@ =~= start + hex_of(t));
        }
        i = i + 1;
    }
    assert(bytes@.take(i as int) =~= bytes@);
    chars_to_string(v.as_slice())
}

fn copy_bytes(b: &Vec<u8>) -> (r: Vec<u8>)
    ensures
        r@ == b@,
{
    let mut r: Vec<u8> = Vec::new();
    let mut i: usize = 0;
    while i < b.len()
        invariant
            i <= b@.len(),
            r@ == b@.take(i as int),
        decreases b.len() - i,
    {
        r.push(b[i]);
        i = i + 1;
        assert(r@ =~= b@.take(i as int));
    }
    assert(b@.take(i as int) =~= b@);
    r
}

/// Convert a response value to an [`SnmpValue`]: a string value by its
/// UTF-8 text, or in hexadecimal when it is not UTF-8.
pub fn convert_object_value_to_snmp_value(value: &ObjectValueData) -> (r: SnmpValue)
    ensures
        converted(*value, r),
{
    match value {
        ObjectValueData::Integer(i) => SnmpValue::Integer(*i as i64),
        ObjectValueData::String(bytes) => match decode_utf8(bytes.as_slice()) {
            Some(s) => SnmpValue::String(s),
            None => SnmpValue::String(hex_string(bytes.as_slice())),
        },
        ObjectValueData::ObjectId(t) => SnmpValue::Oid(t.clone()),
        ObjectValueData::IpAddress(o) => {
            let mut v: Vec<char> = Vec::new();
            push_decimal(&mut v, o[0] as u64);
            push_str(&mut v, ".");
            push_decimal(&mut v, o[1] as u64);
            push_str(&mut v, ".");
            push_decimal(&mut v, o[2] as u64);
            push_str(&mut v, ".");
            push_decimal(&mut v, o[3] as u64);
            SnmpValue::IpAddress(chars_to_string(v.as_slice()))
        },
        ObjectValueData::Counter32(c) => SnmpValue::Counter32(*c),
        ObjectValueData::Counter64(c) => SnmpValue::Counter64(*c),
        ObjectValueData::TimeTicks(t) => SnmpValue::TimeTicks(*t),
        ObjectValueData::Opaque(b) => SnmpValue::Opaque(copy_bytes(b)),
        ObjectValueData::Unsigned32(_) => SnmpValue::Null,
    }
}

} // verus!
