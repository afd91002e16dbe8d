//! SNMP sessions and the pool that hands them out: what a session records
//! of its requests, which credentials a connection is opened with, how the
//! values a device answers with become a result, and when the pool refuses
//! a target. The requests themselves are made by the caller.

use vstd::prelude::*;
use crate::assoc::{
    distinct_names, get, lemma_stored_empty, lemma_stored_step, lookup, remove_entry,
    stored_in_order, upsert,
};
use crate::ids::random_id;
use crate::snmp::config::{SessionConfig, SnmpClientConfig, SnmpClientStats, SnmpCredentials, SnmpError};
use crate::snmp::session::{
    ObjectValueData, arcs, converted, convert_object_value_to_snmp_value, first_invalid_oid, identifier_arcs, oid_parses, parse_oid, parse_oids,
    texts,
};
use crate::snmp::values::SnmpValue;
use crate::text::{chars_to_string, push_str};
use crate::time::{Span, fits_duration, now_since_epoch};

verus! {

fn copy_pair(p: &Option<(String, String)>) -> (r: Option<(String, String)>)
    ensures
        r == *p,
{
    match p {
        Some((a, b)) => Some((a.clone(), b.clone())),
        None => None,
    }
}

/// A copy of the credentials.
pub fn copy_credentials(c: &SnmpCredentials) -> (r: SnmpCredentials)
    ensures
        r == *c,
{
    match c {
        SnmpCredentials::Community { community } => SnmpCredentials::Community { community: community.clone() },
        SnmpCredentials::UserBased { username, auth, privacy } => SnmpCredentials::UserBased {
            username: username.clone(),
            auth: copy_pair(auth),
            privacy: copy_pair(privacy),
        },
    }
}

/// A copy of the session configuration.
pub fn copy_session_config(c: &SessionConfig) -> (r: SessionConfig)
    ensures
        r == *c,
{
    SessionConfig {
        address: c.address.clone(),
        version: c.version,
        credentials: copy_credentials(&c.credentials),
        timeout: c.timeout,
        retries: c.retries,
        max_vars_per_request: c.max_vars_per_request,
    }
}

/// The community `SnmpCredentials::default` gives, which a connection
/// refuses as not configured.
pub open spec fn default_community() -> Seq<char> {
    "public"@
}

/// A session is healthy at `now` when it succeeded last no longer than
/// `max_age` before `now`.
pub open spec fn session_healthy_at(last_success: Option<Span>, max_age: Span, now: Span) -> bool {
    match last_success {
        None => false,
        Some(t) => t.nanos <= now.nanos && now.nanos - t.nanos <= max_age.nanos,
    }
}

/// SNMP session for device communication
#[derive(Debug)]
pub struct SnmpSession {
    /// Session configuration
    pub config: SessionConfig,
    /// Session ID for tracking
    pub session_id: u128,
    /// When the last operation that got values finished, since the Unix
    /// epoch
    pub last_success: Option<Span>,
    /// Connection attempt counter
    pub connection_attempts: u32,
}

impl SnmpSession {
    /// A session that has not yet succeeded or tried to connect: the
    /// configuration, a fresh identifier, nothing recorded.
    pub open spec fn fresh_with(self, config: SessionConfig) -> bool {
        &&& self.config == config
        &&& self.last_success is None
        &&& self.connection_attempts == 0
    }

    /// Create new SNMP session
    pub fn new(config: SessionConfig) -> (s: Self)
        ensures
            s.fresh_with(config),
    {
        SnmpSession { config, session_id: random_id(), last_success: None, connection_attempts: 0 }
    }

    /// Get session ID
    pub fn id(&self) -> (id: u128)
        ensures
            id == self.session_id,
    {
        self.session_id
    }

    /// Get session configuration
    pub fn config(&self) -> (c: &SessionConfig)
        ensures
            *c == self.config,
    {
        &self.config
    }

    /// Get connection attempt count
    pub fn connection_attempts(&self) -> (n: u32)
        ensures
            n == self.connection_attempts,
    {
        self.connection_attempts
    }

    /// Increment the connection attempts counter
    pub fn increment_connection_attempts(&mut self)
        requires
            old(self).connection_attempts < u32::MAX,
        ensures
            final(self).connection_attempts == old(self).connection_attempts + 1,
            final(self).config == old(self).config,
            final(self).session_id == old(self).session_id,
            final(self).last_success == old(self).last_success,
    {
        self.connection_attempts = self.connection_attempts + 1;
    }

    /// Record, at time `now`, whether the last operation got values.
    pub fn update_success_timestamp_at(&mut self, has_results: bool, now: Span)
        ensures
            final(self).last_success == if has_results { Some(now) } else { old(self).last_success },
            final(self).config == old(self).config,
            final(self).session_id == old(self).session_id,
            final(self).connection_attempts == old(self).connection_attempts,
    {
        if has_results {
            self.last_success = Some(now);
        }
    }

    /// Update the last success timestamp, by the clock now, if we got
    /// results
    pub fn update_success_timestamp(&mut self, has_results: bool)
        ensures
            has_results ==> (final(self).last_success matches Some(t) && fits_duration(t)),
            !has_results ==> final(self).last_success == old(self).last_success,
            final(self).config == old(self).config,
            final(self).session_id == old(self).session_id,
            final(self).connection_attempts == old(self).connection_attempts,
    {
        if has_results {
            let now = now_since_epoch();
            self.update_success_timestamp_at(true, now);
        }
    }

    /// Whether the session is healthy at time `now` (since the Unix epoch).
    pub fn is_healthy_at(&self, max_age: Span, now: Span) -> (b: bool)
        ensures
            b == session_healthy_at(self.last_success, max_age, now),
    {
        match self.last_success {
            None => false,
            Some(t) => t.nanos <= now.nanos && now.nanos - t.nanos <= max_age.nanos,
        }
    }

    /// Check if session is healthy (recent successful operations), by the
    /// clock now
    pub fn is_healthy(&self, max_age: Span) -> (b: bool)
        ensures
            exists|now: Span| b == session_healthy_at(self.last_success, max_age, now),
            self.last_success is None ==> !b,
    {
        let now = now_since_epoch();
        self.is_healthy_at(max_age, now)
    }

    /// The community a connection to the target is opened with. The client
    /// library speaks only community-based SNMP, and the default community
    /// (`public`, what `SnmpCredentials::default` gives) is refused as not
    /// configured: a connection needs a community set explicitly.
    pub fn client_community(&self) -> (r: Result<String, SnmpError>)
        ensures
            match self.config.credentials {
                SnmpCredentials::Community { community } => if community@ == default_community() {
                    r matches Err(SnmpError::Protocol { message }) && message@ == "Failed to create SNMP client: "@
                        + "SNMP community must be configured explicitly"@
                } else {
                    r matches Ok(c) && c@ == community@
                },
                SnmpCredentials::UserBased { .. } => r matches Err(SnmpError::Protocol { message }) && message@
                    == "SNMPv3 user-based security not supported by csnmp"@,
            },
    {
        match &self.config.credentials {
            SnmpCredentials::Community { community } => {
                if *community == "public".to_string() {
                    Err(client_creation_error("SNMP community must be configured explicitly"))
                } else {
                    Ok(community.clone())
                }
            },
            SnmpCredentials::UserBased { .. } => Err(
                SnmpError::Protocol { message: "SNMPv3 user-based security not supported by csnmp".to_string() },
            ),
        }
    }
}

impl Clone for SnmpSession {
    /// A new session with the same configuration.
    fn clone(&self) -> (c: Self)
        ensures
            c.fresh_with(self.config),
    {
        SnmpSession::new(copy_session_config(&self.config))
    }
}

impl SnmpSession {
    /// The first steps of a GET: count the attempt, then parse the OIDs
    /// (the error naming the first that is not one).
    pub fn begin_get(&mut self, oids: &[&str]) -> (r: Result<Vec<::csnmp::ObjectIdentifier>, SnmpError>)
        requires
            old(self).connection_attempts < u32::MAX,
        ensures
            final(self).connection_attempts == old(self).connection_attempts + 1,
            final(self).config == old(self).config,
            final(self).session_id == old(self).session_id,
            final(self).last_success == old(self).last_success,
            match first_invalid_oid(texts(oids@)) {
                None => r matches Ok(v) && v@.len() == oids@.len() && forall|i: int|
                    0 <= i < v@.len() ==> #[trigger] identifier_arcs(v@[i]) == arcs(oids@[i]@),
                Some(bad) => r matches Err(SnmpError::InvalidOid { oid }) && oid@ == bad,
            },
    {
        self.increment_connection_attempts();
        parse_oids(oids)
    }

    /// The last steps of a GET: the result of the requests, one per OID
    /// (see [`execute_get_requests`]), recording the success by the clock
    /// now when there are values.
    pub fn finish_get(&mut self, oids: &[&str], outcomes: &Vec<Option<(String, ObjectValueData)>>) -> (r: Vec<
        (String, SnmpValue),
    >)
        requires
            outcomes@.len() == oids@.len(),
        ensures
            stored_in_order(
                get_keys(oids@.map_values(|s: &str| s@), outcomes@),
                |i: int, x: SnmpValue| get_value_ok(outcomes@, i, x),
                r@,
            ),
            r@.len() > 0 ==> (final(self).last_success matches Some(t) && fits_duration(t)),
            r@.len() == 0 ==> final(self).last_success == old(self).last_success,
            final(self).config == old(self).config,
            final(self).session_id == old(self).session_id,
            final(self).connection_attempts == old(self).connection_attempts,
    {
        let result = execute_get_requests(oids, outcomes);
        self.update_success_timestamp(result.len() > 0);
        result
    }
}

/// The identifier a GETNEXT starts from, or the error naming the text when
/// it is not one.
pub fn parse_start_oid(start_oid: &str) -> (r: Result<::csnmp::ObjectIdentifier, SnmpError>)
    ensures
        oid_parses(start_oid@) <==> r is Ok,
        r matches Ok(o) ==> identifier_arcs(o) == arcs(start_oid@),
        !oid_parses(start_oid@) ==> (r matches Err(SnmpError::InvalidOid { oid }) && oid@ == start_oid@),
{
    match parse_oid(start_oid) {
        Some(o) => Ok(o),
        None => Err(SnmpError::InvalidOid { oid: start_oid.to_string() }),
    }
}

/// The error a failure to open a connection is reported with.
pub fn client_creation_error(reason: &str) -> (e: SnmpError)
    ensures
        e matches SnmpError::Protocol { message } && message@ == "Failed to create SNMP client: "@ + reason@,
{
    let mut m: Vec<char> = Vec::new();
    push_str(&mut m, "Failed to create SNMP client: ");
    push_str(&mut m, reason);
    SnmpError::Protocol { message: chars_to_string(m.as_slice()) }
}

/// The error a failed GETNEXT request is reported with.
pub fn get_next_error(reason: &str) -> (e: SnmpError)
    ensures
        e matches SnmpError::Protocol { message } && message@ == "SNMP GETNEXT failed: "@ + reason@,
{
    let mut m: Vec<char> = Vec::new();
    push_str(&mut m, "SNMP GETNEXT failed: ");
    push_str(&mut m, reason);
    SnmpError::Protocol { message: chars_to_string(m.as_slice()) }
}

// ---------------------------------------------------------------------------
// Results of requests
// ---------------------------------------------------------------------------

/// The key a GET answer is stored under: the requested identifier's text
/// when the device answered, else the OID as it was asked for.
pub open spec fn get_key(oids: Seq<Seq<char>>, outcomes: Seq<Option<(String, ObjectValueData)>>, i: int) -> Seq<char> {
    match outcomes[i] {
        Some(a) => a.0@,
        None => oids[i],
    }
}

pub open spec fn get_keys(oids: Seq<Seq<char>>, outcomes: Seq<Option<(String, ObjectValueData)>>) -> Seq<Seq<char>> {
    Seq::new(oids.len(), |i: int| get_key(oids, outcomes, i))
}

/// The value a GET answer stands for: the converted value, or
/// `NoSuchObject` when the device did not answer for the OID.
pub open spec fn get_value_ok(outcomes: Seq<Option<(String, ObjectValueData)>>, i: int, x: SnmpValue) -> bool {
    match outcomes[i] {
        Some(a) => converted(a.1, x),
        None => x == SnmpValue::NoSuchObject,
    }
}

/// Build the result of GET requests, one per OID: `outcomes[i]` is what
/// the device answered for `oids[i]` (the requested identifier's text and
/// the value), or `None` when that request failed.
pub fn execute_get_requests(oids: &[&str], outcomes: &Vec<Option<(String, ObjectValueData)>>) -> (r: Vec<
    (String, SnmpValue),
>)
    requires
        outcomes@.len() == oids@.len(),
    ensures
        stored_in_order(
            get_keys(oids@.map_values(|s: &str| s@), outcomes@),
            |i: int, x: SnmpValue| get_value_ok(outcomes@, i, x),
            r@,
        ),
{
    let ghost os = oids@.map_values(|s: &str| s@);
    let ghost keys = get_keys(os, outcomes@);
    let ghost ok = |i: int, x: SnmpValue| get_value_ok(outcomes@, i, x);
    let mut r: Vec<(String, SnmpValue)> = Vec::new();
    proof {
        lemma_stored_empty(keys, ok, r@);
    }
    let mut i: usize = 0;
    while i < oids.len()
        invariant
            i <= oids@.len(),
            outcomes@.len() == oids@.len(),
            os == oids@.map_values(|s: &str| s@),
            keys == get_keys(os, outcomes@),
            ok == (|i: int, x: SnmpValue| get_value_ok(outcomes@, i, x)),
            stored_in_order(keys.take(i as int), ok, r@),
        decreases oids.len() - i,
    {
        let ghost before = r@;
        let (k, x) = match &outcomes[i] {
            Some(a) => (a.0.clone(), convert_object_value_to_snmp_value(&a.1)),
            None => (oids[i].to_string(), SnmpValue::NoSuchObject),
        };
        assert(k@ == keys[i as int]);
        upsert(&mut r, k, x);
        proof {
            lemma_stored_step(keys, ok, i as int, before, r@, x);
        }
        i = i + 1;
    }
    assert(keys.take(i as int) =~= keys);
    r
}

pub open spec fn walk_keys(response: Seq<(String, ObjectValueData)>) -> Seq<Seq<char>> {
    response.map_values(|a: (String, ObjectValueData)| a.0@)
}

/// Build the result of a GETNEXT request from the identifiers and values
/// the device answered with.
pub fn collect_walk_response(response: &Vec<(String, ObjectValueData)>) -> (r: Vec<(String, SnmpValue)>)
    ensures
        stored_in_order(walk_keys(response@), |i: int, x: SnmpValue| converted(response@[i].1, x), r@),
{
    let ghost keys = walk_keys(response@);
    let ghost ok = |i: int, x: SnmpValue| converted(response@[i].1, x);
    let mut r: Vec<(String, SnmpValue)> = Vec::new();
    proof {
        lemma_stored_empty(keys, ok, r@);
    }
    let mut i: usize = 0;
    while i < response.len()
        invariant
            i <= response@.len(),
            keys == walk_keys(response@),
            ok == (|i: int, x: SnmpValue| converted(response@[i].1, x)),
            stored_in_order(keys.take(i as int), ok, r@),
        decreases response.len() - i,
    {
        let ghost before = r@;
        let a = &response[i];
        let x = convert_object_value_to_snmp_value(&a.1);
        upsert(&mut r, a.0.clone(), x);
        proof {
            lemma_stored_step(keys, ok, i as int, before, r@, x);
        }
        i = i + 1;
    }
    assert(keys.take(i as int) =~= keys);
    r
}

// ---------------------------------------------------------------------------
// Session pools
// ---------------------------------------------------------------------------

/// The configuration a session for `address` gets: the given one, or the
/// default with the address put in.
pub open spec fn session_config_for(default_config: SessionConfig, address: Seq<char>, config: Option<SessionConfig>, c: SessionConfig) -> bool {
    match config {
        Some(given) => c == given,
        None => c.address@ == address && c == (SessionConfig { address: c.address, ..default_config }),
    }
}

fn config_for(default_config: &SessionConfig, address: &str, config: Option<SessionConfig>) -> (c: SessionConfig)
    ensures
        session_config_for(*default_config, address@, config, c),
{
    match config {
        Some(given) => given,
        None => {
            let mut c = copy_session_config(default_config);
            c.address = address.to_string();
            c
        },
    }
}

/// The sessions healthy at `now`, in order.
pub open spec fn kept_healthy(before: Seq<(String, SnmpSession)>, max_age: Span, now: Span) -> Seq<(String, SnmpSession)> {
    before.filter(|e: (String, SnmpSession)| session_healthy_at(e.1.last_success, max_age, now))
}

fn drop_unhealthy(sessions: &mut Vec<(String, SnmpSession)>, max_age: Span, now: Span)
    requires
        distinct_names(old(sessions)@),
    ensures
        distinct_names(final(sessions)@),
        final(sessions)@ == kept_healthy(old(sessions)@, max_age, now),
{
    let ghost before = sessions@;
    let ghost p = |e: (String, SnmpSession)| session_healthy_at(e.1.last_success, max_age, now);
    let ghost mut b: int = 0;
    let mut i: usize = 0;
    assert(before.take(0).filter(p) =~= Seq::<(String, SnmpSession)>::empty()) by {
        reveal(Seq::filter);
    }
    assert(before.skip(0) =~= before);
    while i < sessions.len()
        invariant
            0 <= b <= before.len(),
            p == (|e: (String, SnmpSession)| session_healthy_at(e.1.last_success, max_age, now)),
            sessions@ == before.take(b).filter(p) + before.skip(b),
            i == before.take(b).filter(p).len(),
            distinct_names(sessions@),
        decreases sessions.len() - i,
    {
        let ghost cur = sessions@;
        assert(cur[i as int] == before[b]);
        assert(before.take(b + 1).drop_last() =~= before.take(b));
        assert(before.take(b + 1).last() == before[b]);
        if sessions[i].1.is_healthy_at(max_age, now) {
            assert(before.take(b + 1).filter(p) == before.take(b).filter(p).push(before[b])) by {
                reveal(Seq::filter);
            }
            i = i + 1;
        } else {
            assert(before.take(b + 1).filter(p) == before.take(b).filter(p)) by {
                reveal(Seq::filter);
            }
            proof {
                crate::assoc::lemma_remove_keeps_distinct(cur, i as int);
            }
            let _ = sessions.remove(i);
        }
        proof {
            b = b + 1;
        }
        assert(sessions@ =~= before.take(b).filter(p) + before.skip(b));
    }
    assert(b == before.len());
    assert(before.take(b) =~= before);
    assert(before.skip(b) =~= Seq::<(String, SnmpSession)>::empty());
    assert(sessions@ =~= before.filter(p));
}

/// Session management for an SNMP client: sessions by target address,
/// at most `max_connections` of them.
#[derive(Debug)]
pub struct SessionManager {
    /// Active sessions keyed by target address
    pub sessions: Vec<(String, SnmpSession)>,
    /// Default session configuration
    pub default_config: SessionConfig,
    /// Maximum number of concurrent connections
    pub max_connections: usize,
}

impl SessionManager {
    pub open spec fn wf(self) -> bool {
        distinct_names(self.sessions@)
    }

    /// Create new session manager
    pub fn new(default_config: SessionConfig, max_connections: usize) -> (m: Self)
        ensures
            m.wf(),
            m.sessions@.len() == 0,
            m.default_config == default_config,
            m.max_connections == max_connections,
    {
        SessionManager { sessions: Vec::new(), default_config, max_connections }
    }

    /// A new session for the target: refused when the pool is full and
    /// holds no session for the target.
    pub fn get_session_mut(&self, address: &str, config: Option<SessionConfig>) -> (r: Result<SnmpSession, SnmpError>)
        requires
            self.wf(),
        ensures
            self.sessions@.len() >= self.max_connections && lookup(self.sessions@, address@) is None ==> r == Err::<
                SnmpSession,
                SnmpError,
            >(SnmpError::PoolExhausted { max_connections: self.max_connections }),
            !(self.sessions@.len() >= self.max_connections && lookup(self.sessions@, address@) is None) ==> (r matches Ok(
                s,
            ) && s.last_success is None && s.connection_attempts == 0 && session_config_for(
                self.default_config,
                address@,
                config,
                s.config,
            )),
    {
        if self.sessions.len() >= self.max_connections && get(&self.sessions, address).is_none() {
            return Err(SnmpError::PoolExhausted { max_connections: self.max_connections });
        }
        Ok(SnmpSession::new(config_for(&self.default_config, address, config)))
    }

    /// Get number of active sessions
    pub fn active_session_count(&self) -> (n: usize)
        ensures
            n == self.sessions@.len(),
    {
        self.sessions.len()
    }

    /// Close a specific session
    pub fn close_session(&mut self, address: &str)
        requires
            old(self).wf(),
        ensures
            final(self).wf(),
            lookup(final(self).sessions@, address@) is None,
            forall|k: Seq<char>| k != address@ ==> #[trigger] lookup(final(self).sessions@, k) == lookup(
                old(self).sessions@,
                k,
            ),
            final(self).sessions@.len() <= old(self).sessions@.len(),
            final(self).default_config == old(self).default_config,
            final(self).max_connections == old(self).max_connections,
    {
        remove_entry(&mut self.sessions, address);
    }

    /// Close all sessions
    pub fn close_all_sessions(&mut self)
        ensures
            final(self).wf(),
            final(self).sessions@.len() == 0,
            final(self).default_config == old(self).default_config,
            final(self).max_connections == old(self).max_connections,
    {
        self.sessions = Vec::new();
    }

    /// Drop the sessions that are not healthy at `now`.
    pub fn cleanup_sessions_at(&mut self, max_age: Span, now: Span)
        requires
            old(self).wf(),
        ensures
            final(self).wf(),
            final(self).sessions@ == kept_healthy(old(self).sessions@, max_age, now),
            final(self).default_config == old(self).default_config,
            final(self).max_connections == old(self).max_connections,
    {
        drop_unhealthy(&mut self.sessions, max_age, now);
    }

    /// Clean up inactive sessions, by the clock now
    pub fn cleanup_sessions(&mut self, max_age: Span)
        requires
            old(self).wf(),
        ensures
            final(self).wf(),
            exists|now: Span| final(self).sessions@ == kept_healthy(old(self).sessions@, max_age, now),
            final(self).default_config == old(self).default_config,
            final(self).max_connections == old(self).max_connections,
    {
        let now = now_since_epoch();
        self.cleanup_sessions_at(max_age, now);
    }
}

/// The session pool of an SNMP client: sessions by target address, at most
/// `max_connections` of them. The limit on concurrent requests is the
/// caller's.
#[derive(Debug)]
pub struct SnmpClient {
    /// Session manager
    pub session_manager: SessionManager,
    /// Maximum number of concurrent connections
    pub max_connections: usize,
}

impl SnmpClient {
    /// The sessions are named by distinct addresses, and never more than
    /// the limit.
    pub open spec fn wf(self) -> bool {
        &&& self.session_manager.wf()
        &&& self.session_manager.max_connections == self.max_connections
        &&& self.session_manager.sessions@.len() <= self.max_connections
    }

    /// Create new SNMP client with configuration
    pub fn new(config: SnmpClientConfig) -> (c: Self)
        ensures
            c.wf(),
            c.session_manager.sessions@.len() == 0,
            c.session_manager.default_config == config.default_session,
            c.max_connections == config.max_connections,
    {
        let max_connections = config.max_connections;
        SnmpClient { session_manager: SessionManager::new(config.default_session, max_connections), max_connections }
    }

    /// Get or create the session for a target address: a new session with
    /// the configuration of the one kept for the target; else, while the
    /// pool has room, a new session that the pool keeps a copy of.
    pub fn get_session(&mut self, address: &str, config: Option<SessionConfig>) -> (r: Result<SnmpSession, SnmpError>)
        requires
            old(self).wf(),
        ensures
            final(self).wf(),
            final(self).max_connections == old(self).max_connections,
            final(self).session_manager.default_config == old(self).session_manager.default_config,
            match lookup(old(self).session_manager.sessions@, address@) {
                Some(kept) => {
                    &&& r matches Ok(n) && n.fresh_with(kept.config)
                    &&& final(self).session_manager.sessions@ == old(self).session_manager.sessions@
                },
                None => if old(self).session_manager.sessions@.len() >= old(self).max_connections {
                    &&& r == Err::<SnmpSession, SnmpError>(
                        SnmpError::PoolExhausted { max_connections: old(self).max_connections },
                    )
                    &&& final(self).session_manager.sessions@ == old(self).session_manager.sessions@
                } else {
                    &&& r matches Ok(n)
                    &&& n.last_success is None && n.connection_attempts == 0
                    &&& session_config_for(old(self).session_manager.default_config, address@, config, n.config)
                    &&& lookup(final(self).session_manager.sessions@, address@) matches Some(k) && k.fresh_with(n.config)
                    &&& forall|a: Seq<char>| a != address@ ==> #[trigger] lookup(
                        final(self).session_manager.sessions@,
                        a,
                    ) == lookup(old(self).session_manager.sessions@, a)
                    &&& final(self).session_manager.sessions@.len() == old(self).session_manager.sessions@.len() + 1
                },
            },
    {
        match get(&self.session_manager.sessions, address) {
            Some(kept) => {
                return Ok(kept.clone());
            },
            None => {},
        }
        if self.session_manager.sessions.len() >= self.max_connections {
            return Err(SnmpError::PoolExhausted { max_connections: self.max_connections });
        }
        let session = SnmpSession::new(config_for(&self.session_manager.default_config, address, config));
        let copy = session.clone();
        upsert(&mut self.session_manager.sessions, address.to_string(), copy);
        Ok(session)
    }

    /// Get statistics about the client, given how many request permits are
    /// free
    pub fn stats(&self, available_permits: usize) -> (s: SnmpClientStats)
        ensures
            s.active_sessions == self.session_manager.sessions@.len(),
            s.active_connections == self.session_manager.sessions@.len(),
            s.max_connections == self.max_connections,
            s.available_permits == available_permits,
            s.total_requests == 0,
            s.failed_requests == 0,
            s.avg_response_time.nanos == 0,
    {
        SnmpClientStats::of_client(self.session_manager.active_session_count(), self.max_connections, available_permits)
    }

    /// Get client statistics without counting sessions, given how many
    /// request permits are free
    pub fn get_stats(&self, available_permits: usize) -> (s: SnmpClientStats)
        ensures
            s.active_sessions == 0,
            s.active_connections == 0,
            s.max_connections == self.max_connections,
            s.available_permits == available_permits,
            s.total_requests == 0,
            s.failed_requests == 0,
            s.avg_response_time.nanos == 0,
    {
        SnmpClientStats::of_client(0, self.max_connections, available_permits)
    }

    /// Update statistics: the client keeps none, so nothing changes
    pub fn update_stats(&self, _success: bool, _duration: Span) {
    }

    /// Close a specific session
    pub fn close_session(&mut self, address: &str)
        requires
            old(self).wf(),
        ensures
            final(self).wf(),
            final(self).max_connections == old(self).max_connections,
            final(self).session_manager.default_config == old(self).session_manager.default_config,
            lookup(final(self).session_manager.sessions@, address@) is None,
            forall|k: Seq<char>| k != address@ ==> #[trigger] lookup(final(self).session_manager.sessions@, k) == lookup(
                old(self).session_manager.sessions@,
                k,
            ),
    {
        self.session_manager.close_session(address);
    }

    /// Close all sessions
    pub fn close_all_sessions(&mut self)
        requires
            old(self).wf(),
        ensures
            final(self).wf(),
            final(self).max_connections == old(self).max_connections,
            final(self).session_manager.default_config == old(self).session_manager.default_config,
            final(self).session_manager.sessions@.len() == 0,
    {
        self.session_manager.close_all_sessions();
    }

    /// Drop the sessions that are not healthy at `now`.
    pub fn cleanup_sessions_at(&mut self, max_age: Span, now: Span)
        requires
            old(self).wf(),
        ensures
            final(self).wf(),
            final(self).max_connections == old(self).max_connections,
            final(self).session_manager.default_config == old(self).session_manager.default_config,
            final(self).session_manager.sessions@ == kept_healthy(old(self).session_manager.sessions@, max_age, now),
    {
        self.session_manager.cleanup_sessions_at(max_age, now);
        proof {
            old(self).session_manager.sessions@.lemma_filter_len(
                |e: (String, SnmpSession)| session_healthy_at(e.1.last_success, max_age, now),
            );
        }
    }

    /// Clean up inactive sessions, by the clock now
    pub fn cleanup_sessions(&mut self, max_age: Span)
        requires
            old(self).wf(),
        ensures
            final(self).wf(),
            final(self).max_connections == old(self).max_connections,
            final(self).session_manager.default_config == old(self).session_manager.default_config,
            exists|now: Span| final(self).session_manager.sessions@ == kept_healthy(
                old(self).session_manager.sessions@,
                max_age,
                now,
            ),
    {
        let now = now_since_epoch();
        self.cleanup_sessions_at(max_age, now);
    }
}

} // verus!
