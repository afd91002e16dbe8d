//! A stand-in SNMP client for tests: predefined answers by target and
//! OIDs, and default answers otherwise.

use vstd::prelude::*;
use crate::assoc::{distinct_names, get, lemma_stored_empty, lemma_stored_step, lookup, stored_in_order, upsert};
use crate::snmp::config::{SnmpError, snmp_error_text, snmp_error_writable};
use crate::snmp::values::SnmpValue;
use crate::time::Span;
use crate::text::{chars_to_string, decimal, join, push_decimal, push_str, strs};

verus! {

/// Values by OID, as an answer holds them.
pub type Answer = Result<Vec<(String, SnmpValue)>, SnmpError>;

pub open spec fn value_model_eq(a: SnmpValue, b: SnmpValue) -> bool {
    match (a, b) {
        (SnmpValue::String(x), SnmpValue::String(y)) => x@ == y@,
        (SnmpValue::Oid(x), SnmpValue::Oid(y)) => x@ == y@,
        (SnmpValue::IpAddress(x), SnmpValue::IpAddress(y)) => x@ == y@,
        (SnmpValue::Opaque(x), SnmpValue::Opaque(y)) => x@ == y@,
        _ => a == b,
    }
}

/// Two lists hold the same values under the same OIDs, in order.
pub open spec fn same_values(a: Seq<(String, SnmpValue)>, b: Seq<(String, SnmpValue)>) -> bool {
    &&& a.len() == b.len()
    &&& forall|i: int| 0 <= i < a.len() ==> (#[trigger] a[i]).0@ == b[i].0@ && value_model_eq(a[i].1, b[i].1)
}

fn copy_value(v: &SnmpValue) -> (r: SnmpValue)
    ensures
        value_model_eq(*v, r),
{
    match v {
        SnmpValue::Integer(i) => SnmpValue::Integer(*i),
        SnmpValue::String(s) => SnmpValue::String(s.clone()),
        SnmpValue::Oid(s) => SnmpValue::Oid(s.clone()),
        SnmpValue::IpAddress(s) => SnmpValue::IpAddress(s.clone()),
        SnmpValue::Counter32(c) => SnmpValue::Counter32(*c),
        SnmpValue::Counter64(c) => SnmpValue::Counter64(*c),
        SnmpValue::Gauge32(g) => SnmpValue::Gauge32(*g),
        SnmpValue::TimeTicks(t) => SnmpValue::TimeTicks(*t),
        SnmpValue::Opaque(b) => {
            let mut o: Vec<u8> = Vec::new();
            let mut i: usize = 0;
            while i < b.len()
                invariant
                    i <= b@.len(),
                    o@ == b@.take(i as int),
                decreases b.len() - i,
            {
                o.push(b[i]);
                i = i + 1;
                assert(o@ =~= b@.take(i as int));
            }
            assert(b@.take(i as int) =~= b@);
            SnmpValue::Opaque(o)
        },
        SnmpValue::Null => SnmpValue::Null,
        SnmpValue::NoSuchObject => SnmpValue::NoSuchObject,
        SnmpValue::NoSuchInstance => SnmpValue::NoSuchInstance,
        SnmpValue::EndOfMibView => SnmpValue::EndOfMibView,
    }
}

fn copy_values(v: &Vec<(String, SnmpValue)>) -> (r: Vec<(String, SnmpValue)>)
    ensures
        same_values(v@, r@),
{
    let mut r: Vec<(String, SnmpValue)> = Vec::new();
    let mut i: usize = 0;
    while i < v.len()
        invariant
            i <= v@.len(),
            r@.len() == i,
            forall|k: int| 0 <= k < i ==> (#[trigger] v@[k]).0@ == r@[k].0@ && value_model_eq(v@[k].1, r@[k].1),
        decreases v.len() - i,
    {
        let e = &v[i];
        r.push((e.0.clone(), copy_value(&e.1)));
        i = i + 1;
    }
    r
}

/// The value the stand-in answers by default for an OID at a position:
/// fixed values for the system description, uptime and name, a numbered
/// text otherwise.
pub open spec fn is_default_value(oid: Seq<char>, i: nat, v: SnmpValue) -> bool {
    if oid == "1.3.6.1.2.1.1.1.0"@ {
        v matches SnmpValue::String(s) && s@ == "Test Device"@
    } else if oid == "1.3.6.1.2.1.1.3.0"@ {
        v == SnmpValue::Counter32(12345)
    } else if oid == "1.3.6.1.2.1.1.5.0"@ {
        v matches SnmpValue::String(s) && s@ == "test-device"@
    } else {
        v matches SnmpValue::String(s) && s@ == "test-value-"@ + decimal(i)
    }
}

fn default_value(oid: &str, i: usize) -> (v: SnmpValue)
    ensures
        is_default_value(oid@, i as nat, v),
{
    let o = oid.to_string();
    if o == "1.3.6.1.2.1.1.1.0".to_string() {
        SnmpValue::String("Test Device".to_string())
    } else if o == "1.3.6.1.2.1.1.3.0".to_string() {
        SnmpValue::Counter32(12345)
    } else if o == "1.3.6.1.2.1.1.5.0".to_string() {
        SnmpValue::String("test-device".to_string())
    } else {
        let mut t: Vec<char> = Vec::new();
        push_str(&mut t, "test-value-");
        push_decimal(&mut t, i as u64);
        SnmpValue::String(chars_to_string(t.as_slice()))
    }
}

/// The default answer for the OIDs: each OID once, with the default value
/// for its last position.
pub open spec fn is_default_answer(oids: Seq<Seq<char>>, v: Seq<(String, SnmpValue)>) -> bool {
    stored_in_order(oids, |i: int, x: SnmpValue| is_default_value(oids[i], i as nat, x), v)
}

fn default_answer(oids: &[&str]) -> (v: Vec<(String, SnmpValue)>)
    ensures
        is_default_answer(oids@.map_values(|s: &str| s@), v@),
{
    let ghost os = oids@.map_values(|s: &str| s@);
    let ghost ok = |i: int, x: SnmpValue| is_default_value(os[i], i as nat, x);
    let mut v: Vec<(String, SnmpValue)> = Vec::new();
    proof {
        lemma_stored_empty(os, ok, v@);
    }
    let mut i: usize = 0;
    while i < oids.len()
        invariant
            i <= oids@.len(),
            os == oids@.map_values(|s: &str| s@),
            ok == (|i: int, x: SnmpValue| is_default_value(os[i], i as nat, x)),
            stored_in_order(os.take(i as int), ok, v@),
        decreases oids.len() - i,
    {
        let o: &str = oids[i];
        let x = default_value(o, i);
        let ghost before = v@;
        upsert(&mut v, o.to_string(), x);
        proof {
            lemma_stored_step(os, ok, i as int, before, v@, x);
        }
        i = i + 1;
    }
    assert(os.take(i as int) =~= os);
    v
}

/// The text a predefined error is answered with.
pub open spec fn mock_error_text(e: SnmpError) -> Seq<char> {
    "Mock error: "@ + snmp_error_text(e)
}

/// Stand-in SNMP client that answers from predefined responses
#[derive(Debug)]
pub struct MockSnmpClient {
    /// Predefined responses for GET operations, by target and OIDs
    pub get_responses: Vec<(String, Answer)>,
    /// Predefined responses for WALK operations, by target and start OID
    pub walk_responses: Vec<(String, Answer)>,
    /// Whether operations succeed by default
    pub default_success: bool,
}

/// The key of a GET response: the target, a colon, and the OIDs joined by
/// commas.
pub open spec fn get_key(target: Seq<char>, oids: Seq<Seq<char>>) -> Seq<char> {
    target + ":"@ + join(oids, ","@)
}

/// The key of a WALK response: the target, a colon, and the start OID.
pub open spec fn walk_key(target: Seq<char>, start_oid: Seq<char>) -> Seq<char> {
    target + ":"@ + start_oid
}

/// What the stand-in answers from a predefined response: its values, or
/// its error as a network error.
pub open spec fn predefined_answer(stored: Answer, r: Answer) -> bool {
    match stored {
        Ok(v) => r matches Ok(w) && same_values(v@, w@),
        Err(e) => r matches Err(SnmpError::Network(m)) && m@ == mock_error_text(e),
    }
}

pub open spec fn default_failure(r: Answer) -> bool {
    r matches Err(SnmpError::Network(m)) && m@ == "Mock connection refused"@
}

fn answer_from(stored: &Answer) -> (r: Answer)
    requires
        *stored matches Err(e) ==> snmp_error_writable(e),
    ensures
        predefined_answer(*stored, r),
{
    match stored {
        Ok(v) => Ok(copy_values(v)),
        Err(e) => {
            let mut m: Vec<char> = Vec::new();
            push_str(&mut m, "Mock error: ");
            let t = e.message();
            push_str(&mut m, t.as_str());
            Err(SnmpError::Network(chars_to_string(m.as_slice())))
        },
    }
}

/// Every predefined error can be written out.
pub open spec fn answers_writable(t: Seq<(String, Answer)>) -> bool {
    forall|k: Seq<char>| (#[trigger] lookup(t, k)) matches Some(Err(e)) ==> snmp_error_writable(e)
}

impl MockSnmpClient {
    pub open spec fn wf(self) -> bool {
        &&& distinct_names(self.get_responses@)
        &&& distinct_names(self.walk_responses@)
        &&& answers_writable(self.get_responses@)
        &&& answers_writable(self.walk_responses@)
    }

    /// Create a new stand-in client that succeeds by default
    pub fn new() -> (c: Self)
        ensures
            c.wf(),
            c.get_responses@.len() == 0,
            c.walk_responses@.len() == 0,
            c.default_success,
    {
        MockSnmpClient { get_responses: Vec::new(), walk_responses: Vec::new(), default_success: true }
    }

    /// Create a stand-in client that always succeeds with default values
    pub fn success() -> (c: Self)
        ensures
            c.wf(),
            c.get_responses@.len() == 0,
            c.walk_responses@.len() == 0,
            c.default_success,
    {
        Self::new()
    }

    /// Create a stand-in client that always fails
    pub fn failure() -> (c: Self)
        ensures
            c.wf(),
            c.get_responses@.len() == 0,
            c.walk_responses@.len() == 0,
            !c.default_success,
    {
        MockSnmpClient { get_responses: Vec::new(), walk_responses: Vec::new(), default_success: false }
    }

    /// Add a predefined response for a target and OIDs
    pub fn with_get_response(self, target: &str, oids: &[&str], response: Answer) -> (c: Self)
        requires
            self.wf(),
            response matches Err(e) ==> snmp_error_writable(e),
        ensures
            c.wf(),
            lookup(c.get_responses@, get_key(target@, oids@.map_values(|s: &str| s@))) == Some(response),
            forall|k: Seq<char>| k != get_key(target@, oids@.map_values(|s: &str| s@)) ==> #[trigger] lookup(c.get_responses@, k)
                == lookup(self.get_responses@, k),
            c.walk_responses == self.walk_responses,
            c.default_success == self.default_success,
    {
        let key = key_of_get(target, oids);
        let mut c = self;
        upsert(&mut c.get_responses, key, response);
        c
    }

    /// Add a predefined response for a walk from a start OID
    pub fn with_walk_response(self, target: &str, start_oid: &str, response: Answer) -> (c: Self)
        requires
            self.wf(),
            response matches Err(e) ==> snmp_error_writable(e),
        ensures
            c.wf(),
            lookup(c.walk_responses@, walk_key(target@, start_oid@)) == Some(response),
            forall|k: Seq<char>| k != walk_key(target@, start_oid@) ==> #[trigger] lookup(c.walk_responses@, k) == lookup(
                self.walk_responses@,
                k,
            ),
            c.get_responses == self.get_responses,
            c.default_success == self.default_success,
    {
        let mut v: Vec<char> = Vec::new();
        push_str(&mut v, target);
        push_str(&mut v, ":");
        push_str(&mut v, start_oid);
        let key = chars_to_string(v.as_slice());
        let mut c = self;
        upsert(&mut c.walk_responses, key, response);
        c
    }

    /// What a GET of the OIDs from the target is answered with
    pub fn get(&self, target: &str, oids: &[&str]) -> (r: Answer)
        requires
            self.wf(),
        ensures
            match lookup(self.get_responses@, get_key(target@, oids@.map_values(|s: &str| s@))) {
                Some(stored) => predefined_answer(stored, r),
                None => default_get_answer(oids@.map_values(|s: &str| s@), self.default_success, r),
            },
    {
        let key = key_of_get(target, oids);
        match get(&self.get_responses, key.as_str()) {
            Some(stored) => answer_from(stored),
            None => {
                default_get(oids, self.default_success)
            },
        }
    }

    /// What a walk from the start OID on the target is answered with
    pub fn walk(&self, target: &str, start_oid: &str) -> (r: Answer)
        requires
            self.wf(),
        ensures
            match lookup(self.walk_responses@, walk_key(target@, start_oid@)) {
                Some(stored) => predefined_answer(stored, r),
                None => default_walk_answer(start_oid@, self.default_success, r),
            },
    {
        let mut kv: Vec<char> = Vec::new();
        push_str(&mut kv, target);
        push_str(&mut kv, ":");
        push_str(&mut kv, start_oid);
        let key = chars_to_string(kv.as_slice());
        match get(&self.walk_responses, key.as_str()) {
            Some(stored) => answer_from(stored),
            None => {
                default_walk(start_oid, self.default_success)
            },
        }
    }
}

/// The default answer to a GET: the default values when operations
/// succeed, the connection failure otherwise.
pub open spec fn default_get_answer(oids: Seq<Seq<char>>, success: bool, r: Answer) -> bool {
    if success {
        r matches Ok(v) && is_default_answer(oids, v@)
    } else {
        default_failure(r)
    }
}

/// The default answer to a walk: one value, "test-walk-value", under the
/// start OID followed by ".1", when operations succeed; the connection
/// failure otherwise.
pub open spec fn default_walk_answer(start_oid: Seq<char>, success: bool, r: Answer) -> bool {
    if success {
        &&& r matches Ok(v)
        &&& r->Ok_0@.len() == 1
        &&& r->Ok_0@[0].0@ == start_oid + ".1"@
        &&& r->Ok_0@[0].1 matches SnmpValue::String(s) && s@ == "test-walk-value"@
    } else {
        default_failure(r)
    }
}

fn default_get(oids: &[&str], success: bool) -> (r: Answer)
    ensures
        default_get_answer(oids@.map_values(|s: &str| s@), success, r),
{
    if success {
        Ok(default_answer(oids))
    } else {
        Err(SnmpError::Network("Mock connection refused".to_string()))
    }
}

fn default_walk(start_oid: &str, success: bool) -> (r: Answer)
    ensures
        default_walk_answer(start_oid@, success, r),
{
    if success {
        let mut n: Vec<char> = Vec::new();
        push_str(&mut n, start_oid);
        push_str(&mut n, ".1");
        let mut v: Vec<(String, SnmpValue)> = Vec::new();
        v.push((chars_to_string(n.as_slice()), SnmpValue::String("test-walk-value".to_string())));
        Ok(v)
    } else {
        Err(SnmpError::Network("Mock connection refused".to_string()))
    }
}

impl Default for MockSnmpClient {
    fn default() -> (c: Self)
        ensures
            c.wf(),
            c.get_responses@.len() == 0,
            c.walk_responses@.len() == 0,
            c.default_success,
    {
        Self::new()
    }
}

/// Stand-in SNMP client that answers after a delay, for timeout tests; the
/// wait itself is the caller's.
#[derive(Debug, Clone)]
pub struct DelayedMockSnmpClient {
    /// The delay to introduce before responding
    pub delay: Span,
    /// Whether to succeed after the delay
    pub success: bool,
}

impl DelayedMockSnmpClient {
    /// Create a new delayed stand-in client
    pub fn new(delay: Span, success: bool) -> (c: Self)
        ensures
            c.delay == delay,
            c.success == success,
    {
        DelayedMockSnmpClient { delay, success }
    }

    /// What a GET of the OIDs is answered with once the delay has passed
    pub fn get(&self, oids: &[&str]) -> (r: Answer)
        ensures
            default_get_answer(oids@.map_values(|s: &str| s@), self.success, r),
    {
        default_get(oids, self.success)
    }

    /// What a walk from the start OID is answered with once the delay has
    /// passed
    pub fn walk(&self, start_oid: &str) -> (r: Answer)
        ensures
            default_walk_answer(start_oid@, self.success, r),
    {
        default_walk(start_oid, self.success)
    }
}

fn key_of_get(target: &str, oids: &[&str]) -> (k: String)
    ensures
        k@ == get_key(target@, oids@.map_values(|s: &str| s@)),
{
    let ghost os = oids@.map_values(|s: &str| s@);
    let mut v: Vec<char> = Vec::new();
    push_str(&mut v, target);
    push_str(&mut v, ":");
    let ghost start = v@;
    let mut i: usize = 0;
    while i < oids.len()
        invariant
            i <= oids@.len(),
            os == oids@.map_values(|s: &str| s@),
            v@ == start + join(os.take(i as int), ","@),
        decreases oids.len() - i,
    {
        let ghost before = v@;
        if i > 0 {
            push_str(&mut v, ",");
        }
        push_str(&mut v, oids[i]);
        proof {
            let t = os.take(i + 1);
            assert(t.drop_last() =~= os.take(i as int));
            assert(t.last() == oids@[i as int]@);
            if i == 0 {
                assert(os.take(0) =~= Seq::<Seq<char>>::empty());
                assert(v@ =~= start + t[0]);
            } else {
                assert(v@ =~= start + join(os.take(i as int), ","@) + ","@ + t.last());
            }
        }
        i = i + 1;
    }
    assert(os.take(i as int) =~= os);
    chars_to_string(v.as_slice())
}

} // verus!
