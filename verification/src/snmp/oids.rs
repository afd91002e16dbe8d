//! Object identifiers: the standard MIB-2 set, vendor entries and a
//! name-keyed map over both plus user-defined ones.

use vstd::prelude::*;
use crate::assoc::{distinct_names, get, lookup, names, names_of, upsert};
use crate::order::{lemma_sorted_unique_by_set, sort_strings, sorted_strs};
use crate::text::{chars_to_string, push_str, replace_all, replace_exec, starts_with, str_to_chars, strs};

verus! {

/// Standard SNMP OIDs commonly used for network device monitoring
#[derive(Debug, Clone, Copy, PartialEq, Eq, Structural, Hash)]
pub enum StandardOid {
    /// System description (1.3.6.1.2.1.1.1.0)
    SysDescr,
    /// System object identifier (1.3.6.1.2.1.1.2.0)
    SysObjectId,
    /// System uptime (1.3.6.1.2.1.1.3.0)
    SysUpTime,
    /// System contact (1.3.6.1.2.1.1.4.0)
    SysContact,
    /// System name (1.3.6.1.2.1.1.5.0)
    SysName,
    /// System location (1.3.6.1.2.1.1.6.0)
    SysLocation,
    /// System services (1.3.6.1.2.1.1.7.0)
    SysServices,
    /// Interface count (1.3.6.1.2.1.2.1.0)
    IfNumber,
    /// Interface table base (1.3.6.1.2.1.2.2.1)
    IfTable,
    /// Interface index (1.3.6.1.2.1.2.2.1.1)
    IfIndex,
    /// Interface description (1.3.6.1.2.1.2.2.1.2)
    IfDescr,
    /// Interface type (1.3.6.1.2.1.2.2.1.3)
    IfType,
    /// Interface MTU (1.3.6.1.2.1.2.2.1.4)
    IfMtu,
    /// Interface speed (1.3.6.1.2.1.2.2.1.5)
    IfSpeed,
    /// Interface physical address (1.3.6.1.2.1.2.2.1.6)
    IfPhysAddress,
    /// Interface admin status (1.3.6.1.2.1.2.2.1.7)
    IfAdminStatus,
    /// Interface operational status (1.3.6.1.2.1.2.2.1.8)
    IfOperStatus,
    /// Interface last change (1.3.6.1.2.1.2.2.1.9)
    IfLastChange,
    /// Interface input octets (1.3.6.1.2.1.2.2.1.10)
    IfInOctets,
    /// Interface input unicast packets (1.3.6.1.2.1.2.2.1.11)
    IfInUcastPkts,
    /// Interface input errors (1.3.6.1.2.1.2.2.1.14)
    IfInErrors,
    /// Interface output octets (1.3.6.1.2.1.2.2.1.16)
    IfOutOctets,
    /// Interface output unicast packets (1.3.6.1.2.1.2.2.1.17)
    IfOutUcastPkts,
    /// Interface output errors (1.3.6.1.2.1.2.2.1.20)
    IfOutErrors,
}

/// The dotted identifier of each standard OID.
pub open spec fn standard_oid_text(x: StandardOid) -> Seq<char> {
    match x {
        StandardOid::SysDescr => "1.3.6.1.2.1.1.1.0"@,
        StandardOid::SysObjectId => "1.3.6.1.2.1.1.2.0"@,
        StandardOid::SysUpTime => "1.3.6.1.2.1.1.3.0"@,
        StandardOid::SysContact => "1.3.6.1.2.1.1.4.0"@,
        StandardOid::SysName => "1.3.6.1.2.1.1.5.0"@,
        StandardOid::SysLocation => "1.3.6.1.2.1.1.6.0"@,
        StandardOid::SysServices => "1.3.6.1.2.1.1.7.0"@,
        StandardOid::IfNumber => "1.3.6.1.2.1.2.1.0"@,
        StandardOid::IfTable => "1.3.6.1.2.1.2.2.1"@,
        StandardOid::IfIndex => "1.3.6.1.2.1.2.2.1.1"@,
        StandardOid::IfDescr => "1.3.6.1.2.1.2.2.1.2"@,
        StandardOid::IfType => "1.3.6.1.2.1.2.2.1.3"@,
        StandardOid::IfMtu => "1.3.6.1.2.1.2.2.1.4"@,
        StandardOid::IfSpeed => "1.3.6.1.2.1.2.2.1.5"@,
        StandardOid::IfPhysAddress => "1.3.6.1.2.1.2.2.1.6"@,
        StandardOid::IfAdminStatus => "1.3.6.1.2.1.2.2.1.7"@,
        StandardOid::IfOperStatus => "1.3.6.1.2.1.2.2.1.8"@,
        StandardOid::IfLastChange => "1.3.6.1.2.1.2.2.1.9"@,
        StandardOid::IfInOctets => "1.3.6.1.2.1.2.2.1.10"@,
        StandardOid::IfInUcastPkts => "1.3.6.1.2.1.2.2.1.11"@,
        StandardOid::IfInErrors => "1.3.6.1.2.1.2.2.1.14"@,
        StandardOid::IfOutOctets => "1.3.6.1.2.1.2.2.1.16"@,
        StandardOid::IfOutUcastPkts => "1.3.6.1.2.1.2.2.1.17"@,
        StandardOid::IfOutErrors => "1.3.6.1.2.1.2.2.1.20"@,
    }
}

/// What each standard OID reports.
pub open spec fn standard_oid_description(x: StandardOid) -> Seq<char> {
    match x {
        StandardOid::SysDescr => "System description"@,
        StandardOid::SysObjectId => "System object identifier"@,
        StandardOid::SysUpTime => "System uptime in hundredths of seconds"@,
        StandardOid::SysContact => "System contact information"@,
        StandardOid::SysName => "System name"@,
        StandardOid::SysLocation => "System location"@,
        StandardOid::SysServices => "System services"@,
        StandardOid::IfNumber => "Number of network interfaces"@,
        StandardOid::IfTable => "Network interface table"@,
        StandardOid::IfIndex => "Interface index"@,
        StandardOid::IfDescr => "Interface description"@,
        StandardOid::IfType => "Interface type"@,
        StandardOid::IfMtu => "Interface MTU"@,
        StandardOid::IfSpeed => "Interface speed in bits per second"@,
        StandardOid::IfPhysAddress => "Interface physical address"@,
        StandardOid::IfAdminStatus => "Interface administrative status"@,
        StandardOid::IfOperStatus => "Interface operational status"@,
        StandardOid::IfLastChange => "Interface last change time"@,
        StandardOid::IfInOctets => "Interface input octets"@,
        StandardOid::IfInUcastPkts => "Interface input unicast packets"@,
        StandardOid::IfInErrors => "Interface input errors"@,
        StandardOid::IfOutOctets => "Interface output octets"@,
        StandardOid::IfOutUcastPkts => "Interface output unicast packets"@,
        StandardOid::IfOutErrors => "Interface output errors"@,
    }
}

/// The name of each standard OID, as `{:?}` writes the variant.
pub open spec fn standard_oid_name(x: StandardOid) -> Seq<char> {
    match x {
        StandardOid::SysDescr => "SysDescr"@,
        StandardOid::SysObjectId => "SysObjectId"@,
        StandardOid::SysUpTime => "SysUpTime"@,
        StandardOid::SysContact => "SysContact"@,
        StandardOid::SysName => "SysName"@,
        StandardOid::SysLocation => "SysLocation"@,
        StandardOid::SysServices => "SysServices"@,
        StandardOid::IfNumber => "IfNumber"@,
        StandardOid::IfTable => "IfTable"@,
        StandardOid::IfIndex => "IfIndex"@,
        StandardOid::IfDescr => "IfDescr"@,
        StandardOid::IfType => "IfType"@,
        StandardOid::IfMtu => "IfMtu"@,
        StandardOid::IfSpeed => "IfSpeed"@,
        StandardOid::IfPhysAddress => "IfPhysAddress"@,
        StandardOid::IfAdminStatus => "IfAdminStatus"@,
        StandardOid::IfOperStatus => "IfOperStatus"@,
        StandardOid::IfLastChange => "IfLastChange"@,
        StandardOid::IfInOctets => "IfInOctets"@,
        StandardOid::IfInUcastPkts => "IfInUcastPkts"@,
        StandardOid::IfInErrors => "IfInErrors"@,
        StandardOid::IfOutOctets => "IfOutOctets"@,
        StandardOid::IfOutUcastPkts => "IfOutUcastPkts"@,
        StandardOid::IfOutErrors => "IfOutErrors"@,
    }
}

/// The system group, in order.
pub open spec fn system_oid_list() -> Seq<StandardOid> {
    seq![StandardOid::SysDescr, StandardOid::SysObjectId, StandardOid::SysUpTime, StandardOid::SysContact, StandardOid::SysName, StandardOid::SysLocation, StandardOid::SysServices]
}

/// The interface group, in order.
pub open spec fn interface_oid_list() -> Seq<StandardOid> {
    seq![StandardOid::IfNumber, StandardOid::IfIndex, StandardOid::IfDescr, StandardOid::IfType, StandardOid::IfMtu, StandardOid::IfSpeed, StandardOid::IfPhysAddress, StandardOid::IfAdminStatus, StandardOid::IfOperStatus, StandardOid::IfLastChange, StandardOid::IfInOctets, StandardOid::IfInUcastPkts, StandardOid::IfInErrors, StandardOid::IfOutOctets, StandardOid::IfOutUcastPkts, StandardOid::IfOutErrors]
}

impl StandardOid {
    /// Get the OID string for this standard OID
    pub fn oid(&self) -> (s: &'static str)
        ensures
            s@ == standard_oid_text(*self),
    {
        match self {
            StandardOid::SysDescr => "1.3.6.1.2.1.1.1.0",
            StandardOid::SysObjectId => "1.3.6.1.2.1.1.2.0",
            StandardOid::SysUpTime => "1.3.6.1.2.1.1.3.0",
            StandardOid::SysContact => "1.3.6.1.2.1.1.4.0",
            StandardOid::SysName => "1.3.6.1.2.1.1.5.0",
            StandardOid::SysLocation => "1.3.6.1.2.1.1.6.0",
            StandardOid::SysServices => "1.3.6.1.2.1.1.7.0",
            StandardOid::IfNumber => "1.3.6.1.2.1.2.1.0",
            StandardOid::IfTable => "1.3.6.1.2.1.2.2.1",
            StandardOid::IfIndex => "1.3.6.1.2.1.2.2.1.1",
            StandardOid::IfDescr => "1.3.6.1.2.1.2.2.1.2",
            StandardOid::IfType => "1.3.6.1.2.1.2.2.1.3",
            StandardOid::IfMtu => "1.3.6.1.2.1.2.2.1.4",
            StandardOid::IfSpeed => "1.3.6.1.2.1.2.2.1.5",
            StandardOid::IfPhysAddress => "1.3.6.1.2.1.2.2.1.6",
            StandardOid::IfAdminStatus => "1.3.6.1.2.1.2.2.1.7",
            StandardOid::IfOperStatus => "1.3.6.1.2.1.2.2.1.8",
            StandardOid::IfLastChange => "1.3.6.1.2.1.2.2.1.9",
            StandardOid::IfInOctets => "1.3.6.1.2.1.2.2.1.10",
            StandardOid::IfInUcastPkts => "1.3.6.1.2.1.2.2.1.11",
            StandardOid::IfInErrors => "1.3.6.1.2.1.2.2.1.14",
            StandardOid::IfOutOctets => "1.3.6.1.2.1.2.2.1.16",
            StandardOid::IfOutUcastPkts => "1.3.6.1.2.1.2.2.1.17",
            StandardOid::IfOutErrors => "1.3.6.1.2.1.2.2.1.20",
        }
    }

    /// Get description of this OID
    pub fn description(&self) -> (s: &'static str)
        ensures
            s@ == standard_oid_description(*self),
    {
        match self {
            StandardOid::SysDescr => "System description",
            StandardOid::SysObjectId => "System object identifier",
            StandardOid::SysUpTime => "System uptime in hundredths of seconds",
            StandardOid::SysContact => "System contact information",
            StandardOid::SysName => "System name",
            StandardOid::SysLocation => "System location",
            StandardOid::SysServices => "System services",
            StandardOid::IfNumber => "Number of network interfaces",
            StandardOid::IfTable => "Network interface table",
            StandardOid::IfIndex => "Interface index",
            StandardOid::IfDescr => "Interface description",
            StandardOid::IfType => "Interface type",
            StandardOid::IfMtu => "Interface MTU",
            StandardOid::IfSpeed => "Interface speed in bits per second",
            StandardOid::IfPhysAddress => "Interface physical address",
            StandardOid::IfAdminStatus => "Interface administrative status",
            StandardOid::IfOperStatus => "Interface operational status",
            StandardOid::IfLastChange => "Interface last change time",
            StandardOid::IfInOctets => "Interface input octets",
            StandardOid::IfInUcastPkts => "Interface input unicast packets",
            StandardOid::IfInErrors => "Interface input errors",
            StandardOid::IfOutOctets => "Interface output octets",
            StandardOid::IfOutUcastPkts => "Interface output unicast packets",
            StandardOid::IfOutErrors => "Interface output errors",
        }
    }

    /// The variant's name, the key under which the default map holds it.
    fn variant_name(&self) -> (s: &'static str)
        ensures
            s@ == standard_oid_name(*self),
    {
        match self {
            StandardOid::SysDescr => "SysDescr",
            StandardOid::SysObjectId => "SysObjectId",
            StandardOid::SysUpTime => "SysUpTime",
            StandardOid::SysContact => "SysContact",
            StandardOid::SysName => "SysName",
            StandardOid::SysLocation => "SysLocation",
            StandardOid::SysServices => "SysServices",
            StandardOid::IfNumber => "IfNumber",
            StandardOid::IfTable => "IfTable",
            StandardOid::IfIndex => "IfIndex",
            StandardOid::IfDescr => "IfDescr",
            StandardOid::IfType => "IfType",
            StandardOid::IfMtu => "IfMtu",
            StandardOid::IfSpeed => "IfSpeed",
            StandardOid::IfPhysAddress => "IfPhysAddress",
            StandardOid::IfAdminStatus => "IfAdminStatus",
            StandardOid::IfOperStatus => "IfOperStatus",
            StandardOid::IfLastChange => "IfLastChange",
            StandardOid::IfInOctets => "IfInOctets",
            StandardOid::IfInUcastPkts => "IfInUcastPkts",
            StandardOid::IfInErrors => "IfInErrors",
            StandardOid::IfOutOctets => "IfOutOctets",
            StandardOid::IfOutUcastPkts => "IfOutUcastPkts",
            StandardOid::IfOutErrors => "IfOutErrors",
        }
    }

    /// Get all standard system OIDs for basic device information
    pub fn system_oids() -> (v: Vec<StandardOid>)
        ensures
            v@ == system_oid_list(),
    {
        let mut v: Vec<StandardOid> = Vec::new();
        v.push(StandardOid::SysDescr);
        v.push(StandardOid::SysObjectId);
        v.push(StandardOid::SysUpTime);
        v.push(StandardOid::SysContact);
        v.push(StandardOid::SysName);
        v.push(StandardOid::SysLocation);
        v.push(StandardOid::SysServices);
        assert(v@ =~= system_oid_list());
        v
    }

    /// Get all interface table OIDs for interface monitoring
    pub fn interface_oids() -> (v: Vec<StandardOid>)
        ensures
            v@ == interface_oid_list(),
    {
        let mut v: Vec<StandardOid> = Vec::new();
        v.push(StandardOid::IfNumber);
        v.push(StandardOid::IfIndex);
        v.push(StandardOid::IfDescr);
        v.push(StandardOid::IfType);
        v.push(StandardOid::IfMtu);
        v.push(StandardOid::IfSpeed);
        v.push(StandardOid::IfPhysAddress);
        v.push(StandardOid::IfAdminStatus);
        v.push(StandardOid::IfOperStatus);
        v.push(StandardOid::IfLastChange);
        v.push(StandardOid::IfInOctets);
        v.push(StandardOid::IfInUcastPkts);
        v.push(StandardOid::IfInErrors);
        v.push(StandardOid::IfOutOctets);
        v.push(StandardOid::IfOutUcastPkts);
        v.push(StandardOid::IfOutErrors);
        assert(v@ =~= interface_oid_list());
        v
    }

}

/// A vendor-specific OID entry
///
/// This design supports any vendor without requiring code changes.
/// Vendors can be defined at runtime through configuration.
#[derive(Debug, Clone, PartialEq, Eq, Hash)]
pub struct VendorOid {
    /// Vendor name (e.g., "Cisco", "Juniper", "Custom Corp")
    pub vendor: String,
    /// Specific OID string
    pub oid: String,
    /// Description of what this OID represents
    pub description: String,
}

/// Vendor, identifier and description of a vendor OID.
pub type VendorOidModel = (Seq<char>, Seq<char>, Seq<char>);

impl VendorOid {
    pub open spec fn model(self) -> VendorOidModel {
        (self.vendor@, self.oid@, self.description@)
    }

    /// Create a new vendor OID entry
    pub fn new(vendor: String, oid: String, description: String) -> (r: Self)
        ensures
            r.vendor == vendor,
            r.oid == oid,
            r.description == description,
    {
        VendorOid { vendor, oid, description }
    }

    /// Get the OID string
    pub fn oid(&self) -> (s: &str)
        ensures
            s@ == self.oid@,
    {
        self.oid.as_str()
    }

    /// Get the description
    pub fn description(&self) -> (s: &str)
        ensures
            s@ == self.description@,
    {
        self.description.as_str()
    }

    /// Get the vendor name
    pub fn vendor(&self) -> (s: &str)
        ensures
            s@ == self.vendor@,
    {
        self.vendor.as_str()
    }

    /// Create common Cisco OIDs
    pub fn cisco_common() -> (v: Vec<VendorOid>)
        ensures
            v@.map_values(|x: VendorOid| x.model()) == cisco_models(),
    {
        let mut v: Vec<VendorOid> = Vec::new();
        v.push(VendorOid::new("Cisco".to_string(), "1.3.6.1.4.1.9.2.1.3.0".to_string(), "Cisco CPU utilization".to_string()));
        v.push(VendorOid::new("Cisco".to_string(), "1.3.6.1.4.1.9.2.1.8.0".to_string(), "Cisco memory utilization".to_string()));
        v.push(VendorOid::new("Cisco".to_string(), "1.3.6.1.4.1.9.9.13.1.3.1.3".to_string(), "Cisco temperature sensor".to_string()));
        assert(v@.map_values(|x: VendorOid| x.model()) =~= cisco_models());
        v
    }

    /// Create common Juniper OIDs
    pub fn juniper_common() -> (v: Vec<VendorOid>)
        ensures
            v@.map_values(|x: VendorOid| x.model()) == juniper_models(),
    {
        let mut v: Vec<VendorOid> = Vec::new();
        v.push(VendorOid::new("Juniper".to_string(), "1.3.6.1.4.1.2636.3.1.13.1.8".to_string(), "Juniper CPU utilization".to_string()));
        v.push(VendorOid::new("Juniper".to_string(), "1.3.6.1.4.1.2636.3.1.13.1.11".to_string(), "Juniper memory utilization".to_string()));
        v.push(VendorOid::new("Juniper".to_string(), "1.3.6.1.4.1.2636.3.1.13.1.7".to_string(), "Juniper temperature".to_string()));
        assert(v@.map_values(|x: VendorOid| x.model()) =~= juniper_models());
        v
    }
}

/// The common Cisco OIDs.
pub open spec fn cisco_models() -> Seq<VendorOidModel> {
    seq![
        ("Cisco"@, "1.3.6.1.4.1.9.2.1.3.0"@, "Cisco CPU utilization"@),
        ("Cisco"@, "1.3.6.1.4.1.9.2.1.8.0"@, "Cisco memory utilization"@),
        ("Cisco"@, "1.3.6.1.4.1.9.9.13.1.3.1.3"@, "Cisco temperature sensor"@),
    ]
}

/// The common Juniper OIDs.
pub open spec fn juniper_models() -> Seq<VendorOidModel> {
    seq![
        ("Juniper"@, "1.3.6.1.4.1.2636.3.1.13.1.8"@, "Juniper CPU utilization"@),
        ("Juniper"@, "1.3.6.1.4.1.2636.3.1.13.1.11"@, "Juniper memory utilization"@),
        ("Juniper"@, "1.3.6.1.4.1.2636.3.1.13.1.7"@, "Juniper temperature"@),
    ]
}

/// The value that a table built by storing `pairs` in order holds under
/// `n`: the last one stored there.
pub open spec fn table_of<V>(pairs: Seq<(Seq<char>, V)>, n: Seq<char>) -> Option<V>
    decreases pairs.len(),
{
    if pairs.len() == 0 {
        None
    } else if pairs.last().0 == n {
        Some(pairs.last().1)
    } else {
        table_of(pairs.drop_last(), n)
    }
}

/// The key under which the default map stores a vendor OID: the given
/// prefix, then the description with blanks turned into underscores.
pub open spec fn vendor_key(prefix: Seq<char>, m: VendorOidModel) -> Seq<char> {
    prefix + replace_all(m.2, " "@, "_"@)
}

/// The standard entries of the default map, in the order they are stored.
pub open spec fn standard_defaults() -> Seq<(Seq<char>, StandardOid)> {
    (system_oid_list() + interface_oid_list()).map_values(|x: StandardOid| (standard_oid_name(x), x))
}

/// The vendor entries of the default map, in the order they are stored.
pub open spec fn vendor_defaults() -> Seq<(Seq<char>, VendorOidModel)> {
    cisco_models().map_values(|m: VendorOidModel| (vendor_key("Cisco_"@, m), m)) + juniper_models().map_values(
        |m: VendorOidModel| (vendor_key("Juniper_"@, m), m),
    )
}

pub open spec fn vendor_model_lookup(e: Seq<(String, VendorOid)>, n: Seq<char>) -> Option<VendorOidModel> {
    match lookup(e, n) {
        Some(v) => Some(v.model()),
        None => None,
    }
}

/// OID mapping utility for organizing and accessing OIDs
#[derive(Debug)]
pub struct OidMap {
    /// Standard OIDs mapped by name
    standard: Vec<(String, StandardOid)>,
    /// Vendor-specific OIDs mapped by name
    vendor: Vec<(String, VendorOid)>,
    /// Custom OIDs defined by user
    custom: Vec<(String, String)>,
}

/// What a name resolves to: a standard OID's identifier first, then a
/// vendor OID's, then a custom one.
pub open spec fn resolve_spec(m: OidMap, n: Seq<char>) -> Option<Seq<char>> {
    match lookup(m.standard_table(), n) {
        Some(x) => Some(standard_oid_text(x)),
        None => match lookup(m.vendor_table(), n) {
            Some(v) => Some(v.oid@),
            None => match lookup(m.custom_table(), n) {
                Some(c) => Some(c@),
                None => None,
            },
        },
    }
}

fn store_standard(e: &mut Vec<(String, StandardOid)>, xs: Vec<StandardOid>, Ghost(done): Ghost<Seq<StandardOid>>)
    requires
        distinct_names(old(e)@),
        forall|n: Seq<char>| lookup(old(e)@, n) == table_of(done.map_values(|x: StandardOid| (standard_oid_name(x), x)), n),
        names_of(old(e)@).to_set() == done.map_values(|x: StandardOid| standard_oid_name(x)).to_set(),
    ensures
        distinct_names(final(e)@),
        forall|n: Seq<char>| lookup(final(e)@, n) == table_of((done + xs@).map_values(|x: StandardOid| (standard_oid_name(x), x)), n),
        names_of(final(e)@).to_set() == (done + xs@).map_values(|x: StandardOid| standard_oid_name(x)).to_set(),
{
    let mut i: usize = 0;
    while i < xs.len()
        invariant
            i <= xs@.len(),
            distinct_names(e@),
            forall|n: Seq<char>| lookup(e@, n) == table_of((done + xs@.take(i as int)).map_values(|x: StandardOid| (standard_oid_name(x), x)), n),
            names_of(e@).to_set() == (done + xs@.take(i as int)).map_values(|x: StandardOid| standard_oid_name(x)).to_set(),
        decreases xs.len() - i,
    {
        let x = xs[i];
        let k = x.variant_name().to_string();
        let ghost before = e@;
        upsert(e, k, x);
        proof {
            let p = (done + xs@.take(i as int)).map_values(|x: StandardOid| (standard_oid_name(x), x));
            let q = (done + xs@.take(i + 1)).map_values(|x: StandardOid| (standard_oid_name(x), x));
            assert(done + xs@.take(i + 1) =~= (done + xs@.take(i as int)).push(x));
            assert(q =~= p.push((standard_oid_name(x), x)));
            assert forall|n: Seq<char>| lookup(e@, n) == table_of(q, n) by {
                assert(q.drop_last() =~= p);
            }
            let pn = (done + xs@.take(i as int)).map_values(|x: StandardOid| standard_oid_name(x));
            let qn = (done + xs@.take(i + 1)).map_values(|x: StandardOid| standard_oid_name(x));
            assert(qn =~= pn.push(standard_oid_name(x)));
            pn.lemma_push_to_set_commute(standard_oid_name(x));
        }
        i = i + 1;
    }
    assert(xs@.take(i as int) =~= xs@);
}

fn store_vendor(e: &mut Vec<(String, VendorOid)>, xs: Vec<VendorOid>, prefix: &str, Ghost(done): Ghost<Seq<(Seq<char>, VendorOidModel)>>)
    requires
        distinct_names(old(e)@),
        forall|n: Seq<char>| vendor_model_lookup(old(e)@, n) == table_of(done, n),
        names_of(old(e)@).to_set() == done.map_values(|p: (Seq<char>, VendorOidModel)| p.0).to_set(),
    ensures
        distinct_names(final(e)@),
        forall|n: Seq<char>| vendor_model_lookup(final(e)@, n) == table_of(
            done + xs@.map_values(|x: VendorOid| (vendor_key(prefix@, x.model()), x.model())),
            n,
        ),
        names_of(final(e)@).to_set() == (done + xs@.map_values(|x: VendorOid| (vendor_key(prefix@, x.model()), x.model()))).map_values(
            |p: (Seq<char>, VendorOidModel)| p.0,
        ).to_set(),
{
    let ghost ps = xs@.map_values(|x: VendorOid| (vendor_key(prefix@, x.model()), x.model()));
    let mut rest = xs;
    let ghost all = rest@;
    let mut i: usize = 0;
    let n = rest.len();
    let mut r: Vec<VendorOid> = Vec::new();
    assert(all.skip(0) =~= all);
    while rest.len() > 0
        invariant
            i + rest@.len() == all.len(),
            all.len() == n,
            rest@ == all.skip(i as int),
            ps == all.map_values(|x: VendorOid| (vendor_key(prefix@, x.model()), x.model())),
            distinct_names(e@),
            forall|n: Seq<char>| vendor_model_lookup(e@, n) == table_of(done + ps.take(i as int), n),
            names_of(e@).to_set() == (done + ps.take(i as int)).map_values(|p: (Seq<char>, VendorOidModel)| p.0).to_set(),
        decreases rest.len(),
    {
        let x = rest.remove(0);
        assert(x == all[i as int]);
        assert(rest@ =~= all.skip(i + 1));
        let mut k: Vec<char> = Vec::new();
        push_str(&mut k, prefix);
        let d = str_to_chars(x.description.as_str());
        let sp: [char; 1] = [' '];
        let us: [char; 1] = ['_'];
        let rd = replace_exec(d.as_slice(), &sp, &us);
        let ghost kb = k@;
        let mut j: usize = 0;
        while j < rd.len()
            invariant
                j <= rd@.len(),
                k@ == kb + rd@.take(j as int),
            decreases rd.len() - j,
        {
            k.push(rd[j]);
            j = j + 1;
            assert(k@ =~= kb + rd@.take(j as int));
        }
        proof {
            assert(rd@.take(j as int) =~= rd@);
            assert(sp@ =~= " "@) by {
                reveal_strlit(" ");
            }
            assert(us@ =~= "_"@) by {
                reveal_strlit("_");
            }
        }
        let key = chars_to_string(k.as_slice());
        let ghost pair = (vendor_key(prefix@, x.model()), x.model());
        assert(key@ == pair.0);
        let ghost before = e@;
        upsert(e, key, x);
        proof {
            let p = done + ps.take(i as int);
            let q = done + ps.take(i + 1);
            assert(ps[i as int] == pair);
            assert(q =~= p.push(pair));
            assert forall|nn: Seq<char>| vendor_model_lookup(e@, nn) == table_of(q, nn) by {
                assert(q.drop_last() =~= p);
                if nn == pair.0 {
                    assert(lookup(e@, nn) == Some(x));
                } else {
                    assert(lookup(e@, nn) == lookup(before, nn));
                    assert(vendor_model_lookup(before, nn) == table_of(p, nn));
                }
            }
            let pn = p.map_values(|p: (Seq<char>, VendorOidModel)| p.0);
            let qn = q.map_values(|p: (Seq<char>, VendorOidModel)| p.0);
            assert(qn =~= pn.push(pair.0));
            pn.lemma_push_to_set_commute(pair.0);
        }
        i = i + 1;
    }
    assert(ps.take(i as int) =~= ps);
}

impl Default for OidMap {
    /// The map holding every standard OID under its variant name and the
    /// common Cisco and Juniper OIDs under their vendor keys; no custom OIDs.
    fn default() -> (m: Self)
        ensures
            forall|n: Seq<char>| lookup(m.standard_table(), n) == table_of(standard_defaults(), n),
            names_of(m.standard_table()).to_set() == standard_defaults().map_values(|p: (Seq<char>, StandardOid)| p.0).to_set(),
            forall|n: Seq<char>| vendor_model_lookup(m.vendor_table(), n) == table_of(vendor_defaults(), n),
            names_of(m.vendor_table()).to_set() == vendor_defaults().map_values(|p: (Seq<char>, VendorOidModel)| p.0).to_set(),
            m.custom_table().len() == 0,
    {
        let mut standard: Vec<(String, StandardOid)> = Vec::new();
        let sys = StandardOid::system_oids();
        proof {
            assert forall|n: Seq<char>| lookup(standard@, n) == table_of(Seq::<StandardOid>::empty().map_values(|x: StandardOid| (standard_oid_name(x), x)), n) by {}
            assert(names_of(standard@).to_set() =~= Seq::<StandardOid>::empty().map_values(|x: StandardOid| standard_oid_name(x)).to_set());
        }
        store_standard(&mut standard, sys, Ghost(Seq::empty()));
        let ifs = StandardOid::interface_oids();
        proof {
            assert(Seq::<StandardOid>::empty() + system_oid_list() =~= system_oid_list());
        }
        store_standard(&mut standard, ifs, Ghost(system_oid_list()));
        proof {
            assert(standard_defaults() =~= (system_oid_list() + interface_oid_list()).map_values(|x: StandardOid| (standard_oid_name(x), x)));
            assert(standard_defaults().map_values(|p: (Seq<char>, StandardOid)| p.0) =~= (system_oid_list() + interface_oid_list()).map_values(|x: StandardOid| standard_oid_name(x)));
        }
        let mut vendor: Vec<(String, VendorOid)> = Vec::new();
        let cisco = VendorOid::cisco_common();
        proof {
            reveal_strlit("Cisco_");
            reveal_strlit("Juniper_");
            assert forall|n: Seq<char>| vendor_model_lookup(vendor@, n) == table_of(Seq::<(Seq<char>, VendorOidModel)>::empty(), n) by {}
            assert(names_of(vendor@).to_set() =~= Seq::<(Seq<char>, VendorOidModel)>::empty().map_values(|p: (Seq<char>, VendorOidModel)| p.0).to_set());
        }
        let ghost c1 = cisco@.map_values(|x: VendorOid| (vendor_key("Cisco_"@, x.model()), x.model()));
        store_vendor(&mut vendor, cisco, "Cisco_", Ghost(Seq::empty()));
        let juniper = VendorOid::juniper_common();
        let ghost j1 = juniper@.map_values(|x: VendorOid| (vendor_key("Juniper_"@, x.model()), x.model()));
        store_vendor(&mut vendor, juniper, "Juniper_", Ghost(Seq::<(Seq<char>, VendorOidModel)>::empty() + c1));
        proof {
            assert(c1 =~= cisco_models().map_values(|m: VendorOidModel| (vendor_key("Cisco_"@, m), m)));
            assert(j1 =~= juniper_models().map_values(|m: VendorOidModel| (vendor_key("Juniper_"@, m), m)));
            assert(Seq::<(Seq<char>, VendorOidModel)>::empty() + c1 + j1 =~= vendor_defaults());
        }
        OidMap { standard, vendor, custom: Vec::new() }
    }
}

impl OidMap {
    /// The standard OIDs, by name.
    pub closed spec fn standard_table(self) -> Seq<(String, StandardOid)> {
        self.standard@
    }

    /// The vendor OIDs, by name.
    pub closed spec fn vendor_table(self) -> Seq<(String, VendorOid)> {
        self.vendor@
    }

    /// The custom OIDs, by name.
    pub closed spec fn custom_table(self) -> Seq<(String, String)> {
        self.custom@
    }

    /// Each table holds a name at most once.
    #[verifier::type_invariant]
    spec fn wf(self) -> bool {
        &&& distinct_names(self.standard@)
        &&& distinct_names(self.vendor@)
        &&& distinct_names(self.custom@)
    }

    /// Create new OID map: the same as the default one.
    pub fn new() -> (m: Self)
        ensures
            forall|n: Seq<char>| lookup(m.standard_table(), n) == table_of(standard_defaults(), n),
            names_of(m.standard_table()).to_set() == standard_defaults().map_values(|p: (Seq<char>, StandardOid)| p.0).to_set(),
            forall|n: Seq<char>| vendor_model_lookup(m.vendor_table(), n) == table_of(vendor_defaults(), n),
            names_of(m.vendor_table()).to_set() == vendor_defaults().map_values(|p: (Seq<char>, VendorOidModel)| p.0).to_set(),
            m.custom_table().len() == 0,
    {
        Self::default()
    }

    /// Add a standard OID to the map
    pub fn add_standard(&mut self, name: String, oid: StandardOid)
        ensures
            lookup(final(self).standard_table(), name@) == Some(oid),
            forall|n: Seq<char>| n != name@ ==> #[trigger] lookup(final(self).standard_table(), n) == lookup(old(self).standard_table(), n),
            names_of(final(self).standard_table()).to_set() == names_of(old(self).standard_table()).to_set().insert(name@),
            final(self).vendor_table() == old(self).vendor_table(),
            final(self).custom_table() == old(self).custom_table(),
    {
        proof {
            use_type_invariant(&*self);
        }
        let mut table: Vec<(String, StandardOid)> = Vec::new();
        std::mem::swap(&mut table, &mut self.standard);
        upsert(&mut table, name, oid);
        self.standard = table;
    }

    /// Add a vendor OID to the map
    pub fn add_vendor(&mut self, name: String, oid: VendorOid)
        ensures
            lookup(final(self).vendor_table(), name@) == Some(oid),
            forall|n: Seq<char>| n != name@ ==> #[trigger] lookup(final(self).vendor_table(), n) == lookup(old(self).vendor_table(), n),
            names_of(final(self).vendor_table()).to_set() == names_of(old(self).vendor_table()).to_set().insert(name@),
            final(self).standard_table() == old(self).standard_table(),
            final(self).custom_table() == old(self).custom_table(),
    {
        proof {
            use_type_invariant(&*self);
        }
        let mut table: Vec<(String, VendorOid)> = Vec::new();
        std::mem::swap(&mut table, &mut self.vendor);
        upsert(&mut table, name, oid);
        self.vendor = table;
    }

    /// Add a custom OID to the map
    pub fn add_custom(&mut self, name: String, oid: String)
        ensures
            lookup(final(self).custom_table(), name@) == Some(oid),
            forall|n: Seq<char>| n != name@ ==> #[trigger] lookup(final(self).custom_table(), n) == lookup(old(self).custom_table(), n),
            names_of(final(self).custom_table()).to_set() == names_of(old(self).custom_table()).to_set().insert(name@),
            final(self).standard_table() == old(self).standard_table(),
            final(self).vendor_table() == old(self).vendor_table(),
    {
        proof {
            use_type_invariant(&*self);
        }
        let mut table: Vec<(String, String)> = Vec::new();
        std::mem::swap(&mut table, &mut self.custom);
        upsert(&mut table, name, oid);
        self.custom = table;
    }

    /// Get standard OID by name
    pub fn get_standard(&self, name: &str) -> (r: Option<&StandardOid>)
        ensures
            match r {
                Some(x) => lookup(self.standard_table(), name@) == Some(*x),
                None => lookup(self.standard_table(), name@) is None,
            },
    {
        proof {
            use_type_invariant(&*self);
        }
        get(&self.standard, name)
    }

    /// Get vendor OID by name
    pub fn get_vendor(&self, name: &str) -> (r: Option<&VendorOid>)
        ensures
            match r {
                Some(x) => lookup(self.vendor_table(), name@) == Some(*x),
                None => lookup(self.vendor_table(), name@) is None,
            },
    {
        proof {
            use_type_invariant(&*self);
        }
        get(&self.vendor, name)
    }

    /// Get custom OID by name
    pub fn get_custom(&self, name: &str) -> (r: Option<&str>)
        ensures
            match r {
                Some(s) => lookup(self.custom_table(), name@) is Some && s@ == lookup(self.custom_table(), name@)->0@,
                None => lookup(self.custom_table(), name@) is None,
            },
    {
        proof {
            use_type_invariant(&*self);
        }
        match get(&self.custom, name) {
            Some(s) => Some(s.as_str()),
            None => None,
        }
    }

    /// Resolve any OID name to its string representation
    pub fn resolve(&self, name: &str) -> (r: Option<String>)
        ensures
            match r {
                Some(s) => resolve_spec(*self, name@) == Some(s@),
                None => resolve_spec(*self, name@) is None,
            },
    {
        match self.get_standard(name) {
            Some(x) => Some(x.oid().to_string()),
            None => match self.get_vendor(name) {
                Some(v) => Some(v.oid().to_string()),
                None => match self.get_custom(name) {
                    Some(c) => Some(c.to_string()),
                    None => None,
                },
            },
        }
    }

    /// Get all OID names in the map
    pub fn list_names(&self) -> (r: Vec<String>)
        ensures
            sorted_strs(strs(r@)),
            strs(r@).to_multiset() == (names_of(self.standard_table()) + names_of(self.vendor_table()) + names_of(self.custom_table())).to_multiset(),
    {
        let mut all = names(&self.standard);
        let mut v = names(&self.vendor);
        let mut c = names(&self.custom);
        let ghost a0 = all@;
        let ghost v0 = v@;
        all.append(&mut v);
        let ghost a1 = all@;
        all.append(&mut c);
        proof {
            assert(strs(a1) =~= strs(a0) + strs(v0));
            assert(strs(all@) =~= strs(a1) + names_of(self.custom_table()));
        }
        sort_strings(all)
    }

    /// Get all standard OID names
    pub fn list_standard(&self) -> (r: Vec<String>)
        ensures
            sorted_strs(strs(r@)),
            strs(r@).to_multiset() == names_of(self.standard_table()).to_multiset(),
            strs(r@).no_duplicates(),
    {
        proof {
            use_type_invariant(self);
            lemma_names_no_duplicates(self.standard@);
        }
        let r = sort_strings(names(&self.standard));
        proof {
            lemma_same_multiset_no_duplicates(names_of(self.standard@), strs(r@));
        }
        r
    }

    /// Get all vendor OID names
    pub fn list_vendor(&self) -> (r: Vec<String>)
        ensures
            sorted_strs(strs(r@)),
            strs(r@).to_multiset() == names_of(self.vendor_table()).to_multiset(),
            strs(r@).no_duplicates(),
    {
        proof {
            use_type_invariant(self);
            lemma_names_no_duplicates(self.vendor@);
        }
        let r = sort_strings(names(&self.vendor));
        proof {
            lemma_same_multiset_no_duplicates(names_of(self.vendor@), strs(r@));
        }
        r
    }

    /// Get all custom OID names
    pub fn list_custom(&self) -> (r: Vec<String>)
        ensures
            sorted_strs(strs(r@)),
            strs(r@).to_multiset() == names_of(self.custom_table()).to_multiset(),
            strs(r@).no_duplicates(),
    {
        proof {
            use_type_invariant(self);
            lemma_names_no_duplicates(self.custom@);
        }
        let r = sort_strings(names(&self.custom));
        proof {
            lemma_same_multiset_no_duplicates(names_of(self.custom@), strs(r@));
        }
        r
    }
}


proof fn lemma_names_no_duplicates<V>(e: Seq<(String, V)>)
    requires
        distinct_names(e),
    ensures
        names_of(e).no_duplicates(),
{
    assert forall|i: int, j: int| 0 <= i < names_of(e).len() && 0 <= j < names_of(e).len() && i != j implies names_of(e)[i]
        != names_of(e)[j] by {
        if i < j {
            assert(e[i].0@ != e[j].0@);
        } else {
            assert(e[j].0@ != e[i].0@);
        }
    }
}

proof fn lemma_same_multiset_no_duplicates(a: Seq<Seq<char>>, b: Seq<Seq<char>>)
    requires
        a.no_duplicates(),
        a.to_multiset() == b.to_multiset(),
    ensures
        b.no_duplicates(),
{
    a.lemma_multiset_has_no_duplicates();
    b.lemma_multiset_has_no_duplicates_conv();
}

fn copy_standard_table(e: &Vec<(String, StandardOid)>) -> (r: Vec<(String, StandardOid)>)
    ensures
        r@ == e@,
{
    let mut r: Vec<(String, StandardOid)> = Vec::new();
    let mut i: usize = 0;
    while i < e.len()
        invariant
            i <= e@.len(),
            r@ == e@.take(i as int),
        decreases e.len() - i,
    {
        r.push((e[i].0.clone(), e[i].1));
        i = i + 1;
        assert(r@ =~= e@.take(i as int));
    }
    assert(e@.take(i as int) =~= e@);
    r
}

fn copy_vendor_table(e: &Vec<(String, VendorOid)>) -> (r: Vec<(String, VendorOid)>)
    ensures
        r@ == e@,
{
    let mut r: Vec<(String, VendorOid)> = Vec::new();
    let mut i: usize = 0;
    while i < e.len()
        invariant
            i <= e@.len(),
            r@ == e@.take(i as int),
        decreases e.len() - i,
    {
        let v = &e[i].1;
        r.push((
            e[i].0.clone(),
            VendorOid { vendor: v.vendor.clone(), oid: v.oid.clone(), description: v.description.clone() },
        ));
        i = i + 1;
        assert(r@ =~= e@.take(i as int));
    }
    assert(e@.take(i as int) =~= e@);
    r
}

fn copy_custom_table(e: &Vec<(String, String)>) -> (r: Vec<(String, String)>)
    ensures
        r@ == e@,
{
    let mut r: Vec<(String, String)> = Vec::new();
    let mut i: usize = 0;
    while i < e.len()
        invariant
            i <= e@.len(),
            r@ == e@.take(i as int),
        decreases e.len() - i,
    {
        r.push((e[i].0.clone(), e[i].1.clone()));
        i = i + 1;
        assert(r@ =~= e@.take(i as int));
    }
    assert(e@.take(i as int) =~= e@);
    r
}

impl Clone for OidMap {
    /// A map with the same three tables.
    fn clone(&self) -> (c: Self)
        ensures
            c.standard_table() == self.standard_table(),
            c.vendor_table() == self.vendor_table(),
            c.custom_table() == self.custom_table(),
    {
        proof {
            use_type_invariant(self);
        }
        OidMap {
            standard: copy_standard_table(&self.standard),
            vendor: copy_vendor_table(&self.vendor),
            custom: copy_custom_table(&self.custom),
        }
    }
}

// ---------------------------------------------------------------------------
// Laws
// ---------------------------------------------------------------------------

/// A custom OID added under a name that no standard or vendor OID holds is
/// what the name resolves to.
pub proof fn law_custom_add_then_resolve(before: OidMap, after: OidMap, name: String, oid: String)
    requires
        lookup(after.custom_table(), name@) == Some(oid),
        after.standard_table() == before.standard_table(),
        after.vendor_table() == before.vendor_table(),
        lookup(before.standard_table(), name@) is None,
        lookup(before.vendor_table(), name@) is None,
    ensures
        resolve_spec(after, name@) == Some(oid@),
{
}

/// A standard OID shadows vendor and custom OIDs of the same name, and a
/// vendor OID shadows a custom one.
pub proof fn law_resolution_priority(m: OidMap, name: Seq<char>)
    ensures
        lookup(m.standard_table(), name) matches Some(x) ==> resolve_spec(m, name) == Some(standard_oid_text(x)),
        lookup(m.standard_table(), name) is None ==> (lookup(m.vendor_table(), name) matches Some(v) ==> resolve_spec(m, name)
            == Some(v.oid@)),
        resolve_spec(m, name) is None <==> (lookup(m.standard_table(), name) is None && lookup(m.vendor_table(), name) is None
            && lookup(m.custom_table(), name) is None),
{
}

/// Adding an OID under one name leaves what every other name resolves to.
pub proof fn law_add_keeps_other_names(before: OidMap, after: OidMap, name: Seq<char>, other: Seq<char>)
    requires
        other != name,
        forall|n: Seq<char>| n != name ==> #[trigger] lookup(after.standard_table(), n) == lookup(before.standard_table(), n),
        forall|n: Seq<char>| n != name ==> #[trigger] lookup(after.vendor_table(), n) == lookup(before.vendor_table(), n),
        forall|n: Seq<char>| n != name ==> #[trigger] lookup(after.custom_table(), n) == lookup(before.custom_table(), n),
    ensures
        resolve_spec(after, other) == resolve_spec(before, other),
{
    assert(lookup(after.standard_table(), other) == lookup(before.standard_table(), other));
    assert(lookup(after.vendor_table(), other) == lookup(before.vendor_table(), other));
    assert(lookup(after.custom_table(), other) == lookup(before.custom_table(), other));
}

/// Characters that tell the standard OIDs' identifiers apart: the length,
/// three inner positions and the last two characters.
spec fn oid_signature(t: Seq<char>) -> (nat, char, char, char, char, char) {
    (t.len(), t[12], t[14], if t.len() > 16 { t[16] } else { '0' }, t[t.len() - 2], t[t.len() - 1])
}

spec fn expected_signature(x: StandardOid) -> (nat, char, char, char, char, char) {
    match x {
        StandardOid::SysDescr => (17, '1', '1', '0', '.', '0'),
        StandardOid::SysObjectId => (17, '1', '2', '0', '.', '0'),
        StandardOid::SysUpTime => (17, '1', '3', '0', '.', '0'),
        StandardOid::SysContact => (17, '1', '4', '0', '.', '0'),
        StandardOid::SysName => (17, '1', '5', '0', '.', '0'),
        StandardOid::SysLocation => (17, '1', '6', '0', '.', '0'),
        StandardOid::SysServices => (17, '1', '7', '0', '.', '0'),
        StandardOid::IfNumber => (17, '2', '1', '0', '.', '0'),
        StandardOid::IfTable => (17, '2', '2', '1', '.', '1'),
        StandardOid::IfIndex => (19, '2', '2', '1', '.', '1'),
        StandardOid::IfDescr => (19, '2', '2', '1', '.', '2'),
        StandardOid::IfType => (19, '2', '2', '1', '.', '3'),
        StandardOid::IfMtu => (19, '2', '2', '1', '.', '4'),
        StandardOid::IfSpeed => (19, '2', '2', '1', '.', '5'),
        StandardOid::IfPhysAddress => (19, '2', '2', '1', '.', '6'),
        StandardOid::IfAdminStatus => (19, '2', '2', '1', '.', '7'),
        StandardOid::IfOperStatus => (19, '2', '2', '1', '.', '8'),
        StandardOid::IfLastChange => (19, '2', '2', '1', '.', '9'),
        StandardOid::IfInOctets => (20, '2', '2', '1', '1', '0'),
        StandardOid::IfInUcastPkts => (20, '2', '2', '1', '1', '1'),
        StandardOid::IfInErrors => (20, '2', '2', '1', '1', '4'),
        StandardOid::IfOutOctets => (20, '2', '2', '1', '1', '6'),
        StandardOid::IfOutUcastPkts => (20, '2', '2', '1', '1', '7'),
        StandardOid::IfOutErrors => (20, '2', '2', '1', '2', '0'),
    }
}

proof fn lemma_system_group_prefix(a: StandardOid)
    requires
        system_oid_list().contains(a),
    ensures
        starts_with(standard_oid_text(a), "1.3.6.1.2.1.1."@),
{
    reveal_strlit("1.3.6.1.2.1.1.");
    let i = choose|i: int| 0 <= i < system_oid_list().len() && system_oid_list()[i] == a;
    assert(system_oid_list()[0] == StandardOid::SysDescr);
    assert(system_oid_list()[1] == StandardOid::SysObjectId);
    assert(system_oid_list()[2] == StandardOid::SysUpTime);
    assert(system_oid_list()[3] == StandardOid::SysContact);
    assert(system_oid_list()[4] == StandardOid::SysName);
    assert(system_oid_list()[5] == StandardOid::SysLocation);
    assert(system_oid_list()[6] == StandardOid::SysServices);
    if a == StandardOid::SysDescr {
        reveal_strlit("1.3.6.1.2.1.1.1.0");
        assert(standard_oid_text(a).take(14) =~= "1.3.6.1.2.1.1."@);
    }
    if a == StandardOid::SysObjectId {
        reveal_strlit("1.3.6.1.2.1.1.2.0");
        assert(standard_oid_text(a).take(14) =~= "1.3.6.1.2.1.1."@);
    }
    if a == StandardOid::SysUpTime {
        reveal_strlit("1.3.6.1.2.1.1.3.0");
        assert(standard_oid_text(a).take(14) =~= "1.3.6.1.2.1.1."@);
    }
    if a == StandardOid::SysContact {
        reveal_strlit("1.3.6.1.2.1.1.4.0");
        assert(standard_oid_text(a).take(14) =~= "1.3.6.1.2.1.1."@);
    }
    if a == StandardOid::SysName {
        reveal_strlit("1.3.6.1.2.1.1.5.0");
        assert(standard_oid_text(a).take(14) =~= "1.3.6.1.2.1.1."@);
    }
    if a == StandardOid::SysLocation {
        reveal_strlit("1.3.6.1.2.1.1.6.0");
        assert(standard_oid_text(a).take(14) =~= "1.3.6.1.2.1.1."@);
    }
    if a == StandardOid::SysServices {
        reveal_strlit("1.3.6.1.2.1.1.7.0");
        assert(standard_oid_text(a).take(14) =~= "1.3.6.1.2.1.1."@);
    }
}

proof fn lemma_interface_group_prefix(a: StandardOid)
    requires
        interface_oid_list().contains(a),
    ensures
        starts_with(standard_oid_text(a), "1.3.6.1.2.1.2."@),
{
    reveal_strlit("1.3.6.1.2.1.2.");
    let i = choose|i: int| 0 <= i < interface_oid_list().len() && interface_oid_list()[i] == a;
    assert(interface_oid_list()[0] == StandardOid::IfNumber);
    assert(interface_oid_list()[1] == StandardOid::IfIndex);
    assert(interface_oid_list()[2] == StandardOid::IfDescr);
    assert(interface_oid_list()[3] == StandardOid::IfType);
    assert(interface_oid_list()[4] == StandardOid::IfMtu);
    assert(interface_oid_list()[5] == StandardOid::IfSpeed);
    assert(interface_oid_list()[6] == StandardOid::IfPhysAddress);
    assert(interface_oid_list()[7] == StandardOid::IfAdminStatus);
    assert(interface_oid_list()[8] == StandardOid::IfOperStatus);
    assert(interface_oid_list()[9] == StandardOid::IfLastChange);
    assert(interface_oid_list()[10] == StandardOid::IfInOctets);
    assert(interface_oid_list()[11] == StandardOid::IfInUcastPkts);
    assert(interface_oid_list()[12] == StandardOid::IfInErrors);
    assert(interface_oid_list()[13] == StandardOid::IfOutOctets);
    assert(interface_oid_list()[14] == StandardOid::IfOutUcastPkts);
    assert(interface_oid_list()[15] == StandardOid::IfOutErrors);
    if a == StandardOid::IfNumber {
        reveal_strlit("1.3.6.1.2.1.2.1.0");
        assert(standard_oid_text(a).take(14) =~= "1.3.6.1.2.1.2."@);
    }
    if a == StandardOid::IfIndex {
        reveal_strlit("1.3.6.1.2.1.2.2.1.1");
        assert(standard_oid_text(a).take(14) =~= "1.3.6.1.2.1.2."@);
    }
    if a == StandardOid::IfDescr {
        reveal_strlit("1.3.6.1.2.1.2.2.1.2");
        assert(standard_oid_text(a).take(14) =~= "1.3.6.1.2.1.2."@);
    }
    if a == StandardOid::IfType {
        reveal_strlit("1.3.6.1.2.1.2.2.1.3");
        assert(standard_oid_text(a).take(14) =~= "1.3.6.1.2.1.2."@);
    }
    if a == StandardOid::IfMtu {
        reveal_strlit("1.3.6.1.2.1.2.2.1.4");
        assert(standard_oid_text(a).take(14) =~= "1.3.6.1.2.1.2."@);
    }
    if a == StandardOid::IfSpeed {
        reveal_strlit("1.3.6.1.2.1.2.2.1.5");
        assert(standard_oid_text(a).take(14) =~= "1.3.6.1.2.1.2."@);
    }
    if a == StandardOid::IfPhysAddress {
        reveal_strlit("1.3.6.1.2.1.2.2.1.6");
        assert(standard_oid_text(a).take(14) =~= "1.3.6.1.2.1.2."@);
    }
    if a == StandardOid::IfAdminStatus {
        reveal_strlit("1.3.6.1.2.1.2.2.1.7");
        assert(standard_oid_text(a).take(14) =~= "1.3.6.1.2.1.2."@);
    }
    if a == StandardOid::IfOperStatus {
        reveal_strlit("1.3.6.1.2.1.2.2.1.8");
        assert(standard_oid_text(a).take(14) =~= "1.3.6.1.2.1.2."@);
    }
    if a == StandardOid::IfLastChange {
        reveal_strlit("1.3.6.1.2.1.2.2.1.9");
        assert(standard_oid_text(a).take(14) =~= "1.3.6.1.2.1.2."@);
    }
    if a == StandardOid::IfInOctets {
        reveal_strlit("1.3.6.1.2.1.2.2.1.10");
        assert(standard_oid_text(a).take(14) =~= "1.3.6.1.2.1.2."@);
    }
    if a == StandardOid::IfInUcastPkts {
        reveal_strlit("1.3.6.1.2.1.2.2.1.11");
        assert(standard_oid_text(a).take(14) =~= "1.3.6.1.2.1.2."@);
    }
    if a == StandardOid::IfInErrors {
        reveal_strlit("1.3.6.1.2.1.2.2.1.14");
        assert(standard_oid_text(a).take(14) =~= "1.3.6.1.2.1.2."@);
    }
    if a == StandardOid::IfOutOctets {
        reveal_strlit("1.3.6.1.2.1.2.2.1.16");
        assert(standard_oid_text(a).take(14) =~= "1.3.6.1.2.1.2."@);
    }
    if a == StandardOid::IfOutUcastPkts {
        reveal_strlit("1.3.6.1.2.1.2.2.1.17");
        assert(standard_oid_text(a).take(14) =~= "1.3.6.1.2.1.2."@);
    }
    if a == StandardOid::IfOutErrors {
        reveal_strlit("1.3.6.1.2.1.2.2.1.20");
        assert(standard_oid_text(a).take(14) =~= "1.3.6.1.2.1.2."@);
    }
}

/// Every standard OID is under the MIB-2 subtree `1.3.6.1.2.1.`, the system
/// group's under `1.3.6.1.2.1.1.` and the interface group's under
/// `1.3.6.1.2.1.2.`; no two standard OIDs share an identifier.
pub proof fn law_standard_oids_distinct(a: StandardOid, b: StandardOid)
    ensures
        starts_with(standard_oid_text(a), "1.3.6.1.2.1."@),
        system_oid_list().contains(a) ==> starts_with(standard_oid_text(a), "1.3.6.1.2.1.1."@),
        interface_oid_list().contains(a) ==> starts_with(standard_oid_text(a), "1.3.6.1.2.1.2."@),
        a != b ==> standard_oid_text(a) != standard_oid_text(b),
{
    if system_oid_list().contains(a) {
        lemma_system_group_prefix(a);
    }
    if interface_oid_list().contains(a) {
        lemma_interface_group_prefix(a);
    }
    reveal_strlit("1.3.6.1.2.1.");
    reveal_strlit("1.3.6.1.2.1.1.1.0");
    reveal_strlit("1.3.6.1.2.1.1.2.0");
    reveal_strlit("1.3.6.1.2.1.1.3.0");
    reveal_strlit("1.3.6.1.2.1.1.4.0");
    reveal_strlit("1.3.6.1.2.1.1.5.0");
    reveal_strlit("1.3.6.1.2.1.1.6.0");
    reveal_strlit("1.3.6.1.2.1.1.7.0");
    reveal_strlit("1.3.6.1.2.1.2.1.0");
    reveal_strlit("1.3.6.1.2.1.2.2.1");
    reveal_strlit("1.3.6.1.2.1.2.2.1.1");
    reveal_strlit("1.3.6.1.2.1.2.2.1.2");
    reveal_strlit("1.3.6.1.2.1.2.2.1.3");
    reveal_strlit("1.3.6.1.2.1.2.2.1.4");
    reveal_strlit("1.3.6.1.2.1.2.2.1.5");
    reveal_strlit("1.3.6.1.2.1.2.2.1.6");
    reveal_strlit("1.3.6.1.2.1.2.2.1.7");
    reveal_strlit("1.3.6.1.2.1.2.2.1.8");
    reveal_strlit("1.3.6.1.2.1.2.2.1.9");
    reveal_strlit("1.3.6.1.2.1.2.2.1.10");
    reveal_strlit("1.3.6.1.2.1.2.2.1.11");
    reveal_strlit("1.3.6.1.2.1.2.2.1.14");
    reveal_strlit("1.3.6.1.2.1.2.2.1.16");
    reveal_strlit("1.3.6.1.2.1.2.2.1.17");
    reveal_strlit("1.3.6.1.2.1.2.2.1.20");
    assert(standard_oid_text(a).take(12) =~= "1.3.6.1.2.1."@);
    assert(oid_signature(standard_oid_text(a)) == expected_signature(a));
    assert(oid_signature(standard_oid_text(b)) == expected_signature(b));
}

proof fn lemma_same_multiset_same_set(a: Seq<Seq<char>>, b: Seq<Seq<char>>)
    requires
        a.to_multiset() == b.to_multiset(),
    ensures
        a.to_set() == b.to_set(),
{
    broadcast use vstd::seq_lib::group_to_multiset_ensures;
    assert forall|x: Seq<char>| a.to_set().contains(x) <==> b.to_set().contains(x) by {
        assert(a.to_multiset().contains(x) <==> a.contains(x));
        assert(b.to_multiset().contains(x) <==> b.contains(x));
    }
    assert(a.to_set() =~= b.to_set());
}

/// After a custom OID is added under `name`, listing the custom names gives
/// the names listed before with `name` among them: in ascending order, each
/// once, whatever the listing was before.
pub proof fn law_add_custom_listing(
    before: OidMap,
    after: OidMap,
    name: Seq<char>,
    listed_before: Seq<Seq<char>>,
    listed_after: Seq<Seq<char>>,
    expected: Seq<Seq<char>>,
)
    requires
        names_of(after.custom_table()).to_set() == names_of(before.custom_table()).to_set().insert(name),
        listed_before.to_multiset() == names_of(before.custom_table()).to_multiset(),
        sorted_strs(listed_after),
        listed_after.no_duplicates(),
        listed_after.to_multiset() == names_of(after.custom_table()).to_multiset(),
        sorted_strs(expected),
        expected.no_duplicates(),
        expected.to_set() == listed_before.to_set().insert(name),
    ensures
        listed_after == expected,
{
    lemma_same_multiset_same_set(listed_before, names_of(before.custom_table()));
    lemma_same_multiset_same_set(listed_after, names_of(after.custom_table()));
    lemma_sorted_unique_by_set(listed_after, expected);
}

} // verus!
