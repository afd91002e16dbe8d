use vstd::prelude::*;

verus! {

/// SNMP data type enumeration
#[derive(Debug, Clone, Copy, PartialEq, Eq, Structural)]
pub enum SnmpType {
    Integer,
    OctetString,
    ObjectIdentifier,
    IpAddress,
    Counter32,
    Counter64,
    Gauge32,
    TimeTicks,
    Opaque,
    Null,
}

/// The ASN.1 name under which each SNMP type is written.
pub open spec fn snmp_type_name(t: SnmpType) -> Seq<char> {
    match t {
        SnmpType::Integer => "INTEGER"@,
        SnmpType::OctetString => "OCTET STRING"@,
        SnmpType::ObjectIdentifier => "OBJECT IDENTIFIER"@,
        SnmpType::IpAddress => "IpAddress"@,
        SnmpType::Counter32 => "Counter32"@,
        SnmpType::Counter64 => "Counter64"@,
        SnmpType::Gauge32 => "Gauge32"@,
        SnmpType::TimeTicks => "TimeTicks"@,
        SnmpType::Opaque => "Opaque"@,
        SnmpType::Null => "NULL"@,
    }
}

impl SnmpType {
    /// Get string representation of the SNMP type
    pub fn as_str(&self) -> (s: &'static str)
        ensures
            s@ == snmp_type_name(*self),
    {
        match self {
            SnmpType::Integer => "INTEGER",
            SnmpType::OctetString => "OCTET STRING",
            SnmpType::ObjectIdentifier => "OBJECT IDENTIFIER",
            SnmpType::IpAddress => "IpAddress",
            SnmpType::Counter32 => "Counter32",
            SnmpType::Counter64 => "Counter64",
            SnmpType::Gauge32 => "Gauge32",
            SnmpType::TimeTicks => "TimeTicks",
            SnmpType::Opaque => "Opaque",
            SnmpType::Null => "NULL",
        }
    }
}

} // verus!
