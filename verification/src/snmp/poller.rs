//! The polling scheduler's decisions: polling tasks, their health and
//! back-off, what a finished poll does to its task, the table of tasks and
//! the control messages that change it, and which tasks are due.
//!
//! The scheduler's loop, its timers, channels and SNMP requests are not
//! here: they call these functions with what they read and act on what
//! these return.

use vstd::prelude::*;
use crate::snmp::config::{SessionConfig, SnmpCredentials, SnmpError, snmp_error_text, snmp_error_writable};
use crate::snmp::values::SnmpValue;
use crate::text::{copy_strings, opt_str, push_str, chars_to_string, strs};
use crate::time::{Span, duration_debug, duration_debug_text, fits_duration, now_since_epoch};

verus! {

/// Configuration for the polling scheduler
#[derive(Debug, Clone)]
pub struct PollingConfig {
    /// Default polling interval
    pub default_interval: Span,
    /// Maximum concurrent polling tasks
    pub max_concurrent_polls: usize,
    /// Timeout for individual polling operations
    pub poll_timeout: Span,
    /// Maximum number of retries for failed polls
    pub max_retries: u32,
    /// Health check interval for cleaning up failed tasks
    pub health_check_interval: Span,
}

impl Default for PollingConfig {
    fn default() -> (c: Self)
        ensures
            c.default_interval.nanos == 300_000_000_000,
            c.max_concurrent_polls == 50,
            c.poll_timeout.nanos == 30_000_000_000,
            c.max_retries == 3,
            c.health_check_interval.nanos == 60_000_000_000,
    {
        PollingConfig {
            default_interval: Span::from_secs(300),
            max_concurrent_polls: 50,
            poll_timeout: Span::from_secs(30),
            max_retries: 3,
            health_check_interval: Span::from_secs(60),
        }
    }
}

// ---------------------------------------------------------------------------
// Tasks
// ---------------------------------------------------------------------------

/// A single polling task for a specific device and OID set
#[derive(Debug, Clone)]
pub struct PollingTask {
    /// Unique task ID
    pub id: u128,
    /// Target device address
    pub target: String,
    /// ID of the node the task polls
    pub node_id: u128,
    /// OIDs to poll
    pub oids: Vec<String>,
    /// Polling interval
    pub interval: Span,
    /// SNMP session configuration
    pub session_config: SessionConfig,
    /// Task priority (higher priority tasks run first)
    pub priority: u8,
    /// Whether the task is enabled
    pub enabled: bool,
    /// Task creation time, since the Unix epoch
    pub created_at: Span,
    /// Last successful poll, since the Unix epoch
    pub last_success: Option<Span>,
    /// Last error encountered
    pub last_error: Option<String>,
    /// Number of consecutive failures
    pub consecutive_failures: u32,
}

pub type PairModel = Option<(Seq<char>, Seq<char>)>;

/// Community or user-based, then the community or user name, then the
/// authentication and privacy settings.
pub type CredentialsModel = (bool, Seq<char>, PairModel, PairModel);

pub type SessionModel = (Seq<char>, u8, CredentialsModel, Span, u32, usize);

pub open spec fn pair_model(p: Option<(String, String)>) -> PairModel {
    match p {
        Some((a, b)) => Some((a@, b@)),
        None => None,
    }
}

pub open spec fn credentials_model(c: SnmpCredentials) -> CredentialsModel {
    match c {
        SnmpCredentials::Community { community } => (true, community@, None, None),
        SnmpCredentials::UserBased { username, auth, privacy } => (
            false,
            username@,
            pair_model(auth),
            pair_model(privacy),
        ),
    }
}

pub open spec fn session_model(c: SessionConfig) -> SessionModel {
    (c.address@, c.version, credentials_model(c.credentials), c.timeout, c.retries, c.max_vars_per_request)
}

/// What a task holds, its strings taken by their text.
pub struct TaskModel {
    pub id: u128,
    pub target: Seq<char>,
    pub node_id: u128,
    pub oids: Seq<Seq<char>>,
    pub interval: Span,
    pub session: SessionModel,
    pub priority: u8,
    pub enabled: bool,
    pub created_at: Span,
    pub last_success: Option<Span>,
    pub last_error: Option<Seq<char>>,
    pub consecutive_failures: u32,
}

impl PollingTask {
    pub open spec fn model(self) -> TaskModel {
        TaskModel {
            id: self.id,
            target: self.target@,
            node_id: self.node_id,
            oids: strs(self.oids@),
            interval: self.interval,
            session: session_model(self.session_config),
            priority: self.priority,
            enabled: self.enabled,
            created_at: self.created_at,
            last_success: self.last_success,
            last_error: opt_str(self.last_error),
            consecutive_failures: self.consecutive_failures,
        }
    }
}

/// The model of a task with its enabled flag set.
pub open spec fn with_enabled(m: TaskModel, enabled: bool) -> TaskModel {
    TaskModel {
        id: m.id,
        target: m.target,
        node_id: m.node_id,
        oids: m.oids,
        interval: m.interval,
        session: m.session,
        priority: m.priority,
        enabled: enabled,
        created_at: m.created_at,
        last_success: m.last_success,
        last_error: m.last_error,
        consecutive_failures: m.consecutive_failures,
    }
}

fn copy_pair(p: &Option<(String, String)>) -> (r: Option<(String, String)>)
    ensures
        pair_model(r) == pair_model(*p),
{
    match p {
        Some((a, b)) => Some((a.clone(), b.clone())),
        None => None,
    }
}

fn copy_credentials(c: &SnmpCredentials) -> (r: SnmpCredentials)
    ensures
        credentials_model(r) == credentials_model(*c),
{
    match c {
        SnmpCredentials::Community { community } => SnmpCredentials::Community { community: community.clone() },
        SnmpCredentials::UserBased { username, auth, privacy } => SnmpCredentials::UserBased {
            username: username.clone(),
            auth: copy_pair(auth),
            privacy: copy_pair(privacy),
        },
    }
}

fn copy_session(c: &SessionConfig) -> (r: SessionConfig)
    ensures
        session_model(r) == session_model(*c),
{
    SessionConfig {
        address: c.address.clone(),
        version: c.version,
        credentials: copy_credentials(&c.credentials),
        timeout: c.timeout,
        retries: c.retries,
        max_vars_per_request: c.max_vars_per_request,
    }
}

fn copy_opt_text(o: &Option<String>) -> (r: Option<String>)
    ensures
        opt_str(r) == opt_str(*o),
{
    match o {
        Some(s) => Some(s.clone()),
        None => None,
    }
}

/// The default priority of a new task.
pub open spec fn default_priority() -> u8 {
    128
}

impl PollingTask {
    /// Create a new polling task
    pub fn new(target: String, node_id: u128, oids: Vec<String>, interval: Span, session_config: SessionConfig) -> (t:
        Self)
        ensures
            t.target == target,
            t.node_id == node_id,
            t.oids == oids,
            t.interval == interval,
            t.session_config == session_config,
            t.priority == default_priority(),
            t.enabled,
            fits_duration(t.created_at),
            t.last_success is None,
            t.last_error is None,
            t.consecutive_failures == 0,
    {
        PollingTask {
            id: crate::ids::random_id(),
            target,
            node_id,
            oids,
            interval,
            session_config,
            priority: 128,
            enabled: true,
            created_at: now_since_epoch(),
            last_success: None,
            last_error: None,
            consecutive_failures: 0,
        }
    }

    /// A copy of the task.
    pub fn duplicate(&self) -> (t: Self)
        ensures
            t.model() == self.model(),
    {
        let oids = copy_strings(&self.oids);
        PollingTask {
            id: self.id,
            target: self.target.clone(),
            node_id: self.node_id,
            oids,
            interval: self.interval,
            session_config: copy_session(&self.session_config),
            priority: self.priority,
            enabled: self.enabled,
            created_at: self.created_at,
            last_success: self.last_success,
            last_error: copy_opt_text(&self.last_error),
            consecutive_failures: self.consecutive_failures,
        }
    }
}

// ---------------------------------------------------------------------------
// Health and back-off
// ---------------------------------------------------------------------------

/// A task is healthy when it never succeeded and never failed, or when its
/// last success is no older than the given age at time `now`.
pub open spec fn healthy_at(last_success: Option<Span>, failures: u32, max_age: Span, now: Span) -> bool {
    match last_success {
        None => failures == 0,
        Some(ls) => ls.nanos <= now.nanos && now.nanos - ls.nanos <= max_age.nanos,
    }
}

/// The back-off factor after consecutive failures: doubled with each
/// failure, up to five doublings.
pub open spec fn backoff_factor(failures: u32) -> nat {
    if failures == 0 {
        1
    } else if failures == 1 {
        2
    } else if failures == 2 {
        4
    } else if failures == 3 {
        8
    } else if failures == 4 {
        16
    } else {
        32
    }
}

pub open spec fn backoff_nanos(interval: Span, failures: u32) -> nat {
    interval.nanos as nat * backoff_factor(failures)
}

impl PollingTask {
    /// Whether the task is healthy at time `now` (since the Unix epoch).
    pub fn is_healthy_at(&self, max_failure_age: Span, now: Span) -> (b: bool)
        ensures
            b == healthy_at(self.last_success, self.consecutive_failures, max_failure_age, now),
    {
        match self.last_success {
            None => self.consecutive_failures == 0,
            Some(ls) => ls.nanos <= now.nanos && now.nanos - ls.nanos <= max_failure_age.nanos,
        }
    }

    /// Check if task is healthy (recent successful polls), by the clock now.
    pub fn is_healthy(&self, max_failure_age: Span) -> (b: bool)
        ensures
            exists|now: Span| b == healthy_at(self.last_success, self.consecutive_failures, max_failure_age, now),
            self.last_success is None ==> b == (self.consecutive_failures == 0),
    {
        let now = now_since_epoch();
        self.is_healthy_at(max_failure_age, now)
    }

    /// The interval to wait before the next poll: the polling interval,
    /// backed off exponentially after failures.
    pub fn backoff_interval(&self) -> (d: Span)
        requires
            backoff_nanos(self.interval, self.consecutive_failures) / 1_000_000_000 <= u64::MAX,
        ensures
            d.nanos == backoff_nanos(self.interval, self.consecutive_failures),
    {
        let f = self.consecutive_failures;
        let factor: u128 = if f == 0 {
            1
        } else if f == 1 {
            2
        } else if f == 2 {
            4
        } else if f == 3 {
            8
        } else if f == 4 {
            16
        } else {
            32
        };
        Span { nanos: self.interval.nanos * factor }
    }

    /// Calculate next poll time from a clock reading: the reading plus the
    /// backed-off interval.
    pub fn next_poll_time(&self, now: Span) -> (t: Span)
        requires
            backoff_nanos(self.interval, self.consecutive_failures) / 1_000_000_000 <= u64::MAX,
            now.nanos + backoff_nanos(self.interval, self.consecutive_failures) <= u128::MAX,
        ensures
            t.nanos == now.nanos + backoff_nanos(self.interval, self.consecutive_failures),
    {
        let d = self.backoff_interval();
        Span { nanos: now.nanos + d.nanos }
    }
}

// ---------------------------------------------------------------------------
// A finished poll
// ---------------------------------------------------------------------------

/// How a poll ended: with values, with an SNMP error, or by the timeout.
#[derive(Debug)]
pub enum PollOutcome {
    Values(Vec<(String, SnmpValue)>),
    Failed(SnmpError),
    TimedOut,
}

/// Result of a polling operation
#[derive(Debug)]
pub struct PollingResult {
    /// ID of the task this result is for
    pub task_id: u128,
    /// Node ID this result is for
    pub node_id: u128,
    /// Target address that was polled
    pub target: String,
    /// When the poll was performed, since the Unix epoch
    pub timestamp: Span,
    /// Whether the poll was successful
    pub success: bool,
    /// SNMP values retrieved (if successful)
    pub values: Vec<(String, SnmpValue)>,
    /// Error message (if failed)
    pub error: Option<String>,
    /// Duration of the polling operation
    pub duration: Span,
}

pub open spec fn timeout_text(timeout: Span) -> Seq<char> {
    "SNMP poll timeout after "@ + duration_debug(timeout.nanos as nat)
}

/// The fields a poll's result leaves as they were.
pub open spec fn same_identity(a: TaskModel, b: TaskModel) -> bool {
    &&& a.id == b.id
    &&& a.target == b.target
    &&& a.node_id == b.node_id
    &&& a.oids == b.oids
    &&& a.interval == b.interval
    &&& a.session == b.session
    &&& a.priority == b.priority
    &&& a.enabled == b.enabled
    &&& a.created_at == b.created_at
}

pub open spec fn outcome_writable(o: PollOutcome) -> bool {
    o matches PollOutcome::Failed(e) ==> snmp_error_writable(e)
}

/// The error text an outcome reports, if it failed.
pub open spec fn outcome_error(o: PollOutcome, timeout: Span) -> Option<Seq<char>> {
    match o {
        PollOutcome::Values(_) => None,
        PollOutcome::Failed(e) => Some(snmp_error_text(e)),
        PollOutcome::TimedOut => Some(timeout_text(timeout)),
    }
}

/// Record how a poll ended on its task, `now` being the time of the
/// record: a success resets the failure count and clears the error, a
/// failure counts one more and keeps its message. Returns the success, the
/// values and the error.
pub fn record_poll_result(poll_result: PollOutcome, task: &mut PollingTask, timeout: Span, now: Span) -> (r: (
    bool,
    Vec<(String, SnmpValue)>,
    Option<String>,
))
    requires
        outcome_writable(poll_result),
        fits_duration(timeout),
        !(poll_result is Values) ==> old(task).consecutive_failures < u32::MAX,
    ensures
        same_identity(final(task).model(), old(task).model()),
        r.0 == (poll_result is Values),
        opt_str(r.2) == outcome_error(poll_result, timeout),
        final(task).last_error == r.2,
        poll_result matches PollOutcome::Values(v) ==> r.1 == v && final(task).last_success == Some(now)
            && final(task).consecutive_failures == 0,
        !(poll_result is Values) ==> r.1@.len() == 0 && final(task).last_success == old(task).last_success
            && final(task).consecutive_failures == old(task).consecutive_failures + 1,
{
    match poll_result {
        PollOutcome::Values(values) => {
            task.last_success = Some(now);
            task.consecutive_failures = 0;
            task.last_error = None;
            (true, values, None)
        },
        PollOutcome::Failed(e) => {
            let m = e.message();
            task.consecutive_failures = task.consecutive_failures + 1;
            task.last_error = Some(m.clone());
            let err = task.last_error.clone();
            proof {
                assert(err == task.last_error);
            }
            (false, Vec::new(), err)
        },
        PollOutcome::TimedOut => {
            let mut v: Vec<char> = Vec::new();
            push_str(&mut v, "SNMP poll timeout after ");
            let d = duration_debug_text(timeout);
            push_str(&mut v, d.as_str());
            let m = chars_to_string(v.as_slice());
            task.consecutive_failures = task.consecutive_failures + 1;
            task.last_error = Some(m);
            let err = task.last_error.clone();
            (false, Vec::new(), err)
        },
    }
}

/// Process how a poll ended, stamping a success with the clock's time.
pub fn process_poll_result(poll_result: PollOutcome, task: &mut PollingTask, timeout: Span) -> (r: (
    bool,
    Vec<(String, SnmpValue)>,
    Option<String>,
))
    requires
        outcome_writable(poll_result),
        fits_duration(timeout),
        !(poll_result is Values) ==> old(task).consecutive_failures < u32::MAX,
    ensures
        same_identity(final(task).model(), old(task).model()),
        r.0 == (poll_result is Values),
        opt_str(r.2) == outcome_error(poll_result, timeout),
        final(task).last_error == r.2,
        poll_result matches PollOutcome::Values(v) ==> r.1 == v && final(task).last_success is Some
            && final(task).consecutive_failures == 0,
        !(poll_result is Values) ==> r.1@.len() == 0 && final(task).last_success == old(task).last_success
            && final(task).consecutive_failures == old(task).consecutive_failures + 1,
{
    let now = now_since_epoch();
    record_poll_result(poll_result, task, timeout, now)
}

/// The result of a poll of the task.
pub fn create_polling_result(
    task: &PollingTask,
    poll_start: Span,
    success: bool,
    values: Vec<(String, SnmpValue)>,
    error: Option<String>,
    duration: Span,
) -> (r: PollingResult)
    ensures
        r.task_id == task.id,
        r.node_id == task.node_id,
        r.target@ == task.target@,
        r.timestamp == poll_start,
        r.success == success,
        r.values == values,
        r.error == error,
        r.duration == duration,
{
    PollingResult {
        task_id: task.id,
        node_id: task.node_id,
        target: task.target.clone(),
        timestamp: poll_start,
        success,
        values,
        error,
        duration,
    }
}


// ---------------------------------------------------------------------------
// The table of tasks
// ---------------------------------------------------------------------------

/// No two tasks share an id.
pub open spec fn distinct_ids(s: Seq<PollingTask>) -> bool {
    forall|i: int, j: int| 0 <= i < j < s.len() ==> #[trigger] s[i].id != #[trigger] s[j].id
}

/// The tasks by id.
pub open spec fn table_map(s: Seq<PollingTask>) -> Map<u128, TaskModel>
    decreases s.len(),
{
    if s.len() == 0 {
        Map::empty()
    } else {
        table_map(s.drop_last()).insert(s.last().id, s.last().model())
    }
}

pub open spec fn has_id(s: Seq<PollingTask>, id: u128) -> bool {
    exists|i: int| 0 <= i < s.len() && #[trigger] s[i].id == id
}

proof fn lemma_table_dom(s: Seq<PollingTask>, id: u128)
    ensures
        table_map(s).contains_key(id) <==> has_id(s, id),
    decreases s.len(),
{
    if s.len() > 0 {
        let d = s.drop_last();
        lemma_table_dom(d, id);
        if has_id(d, id) {
            let i = choose|i: int| 0 <= i < d.len() && #[trigger] d[i].id == id;
            assert(s[i].id == id);
        }
        if has_id(s, id) {
            let i = choose|i: int| 0 <= i < s.len() && #[trigger] s[i].id == id;
            if i < s.len() - 1 {
                assert(d[i].id == id);
            }
        }
    }
}

proof fn lemma_table_value(s: Seq<PollingTask>, i: int)
    requires
        distinct_ids(s),
        0 <= i < s.len(),
    ensures
        table_map(s).contains_key(s[i].id),
        table_map(s)[s[i].id] == s[i].model(),
    decreases s.len(),
{
    let d = s.drop_last();
    if i < s.len() - 1 {
        assert(distinct_ids(d)) by {
            assert forall|a: int, b: int| 0 <= a < b < d.len() implies #[trigger] d[a].id != #[trigger] d[b].id by {
                assert(s[a].id != s[b].id);
            }
        }
        lemma_table_value(d, i);
        assert(s[i].id != s[s.len() - 1].id);
        assert(d[i] == s[i]);
    }
}

/// Two ways of seeing the same table agree.
proof fn lemma_table_equal(a: Seq<PollingTask>, m: Map<u128, TaskModel>)
    requires
        distinct_ids(a),
        forall|i: int| 0 <= i < a.len() ==> m.contains_key(#[trigger] a[i].id) && m[a[i].id] == a[i].model(),
        forall|k: u128| m.contains_key(k) ==> has_id(a, k),
    ensures
        table_map(a) == m,
{
    assert forall|k: u128| #[trigger] table_map(a).contains_key(k) <==> m.contains_key(k) by {
        lemma_table_dom(a, k);
        if has_id(a, k) {
            let i = choose|i: int| 0 <= i < a.len() && #[trigger] a[i].id == k;
            assert(m.contains_key(a[i].id));
        }
    }
    assert forall|k: u128| #[trigger] table_map(a).contains_key(k) implies table_map(a)[k] == m[k] by {
        lemma_table_dom(a, k);
        let i = choose|i: int| 0 <= i < a.len() && #[trigger] a[i].id == k;
        lemma_table_value(a, i);
        assert(m.contains_key(a[i].id));
    }
    assert(table_map(a) =~= m);
}

/// The active polling tasks, each under its own id.
#[derive(Debug)]
pub struct PollingTasks {
    pub tasks: Vec<PollingTask>,
}

impl View for PollingTasks {
    type V = Map<u128, TaskModel>;

    open spec fn view(&self) -> Map<u128, TaskModel> {
        table_map(self.tasks@)
    }
}

impl PollingTasks {
    pub open spec fn wf(&self) -> bool {
        distinct_ids(self.tasks@)
    }

    /// An empty table.
    pub fn new() -> (t: Self)
        ensures
            t.wf(),
            t@ == Map::<u128, TaskModel>::empty(),
    {
        PollingTasks { tasks: Vec::new() }
    }

    /// The number of tasks.
    pub fn len(&self) -> (n: usize)
        requires
            self.wf(),
        ensures
            n == self@.dom().len(),
    {
        proof {
            self.lemma_len();
        }
        self.tasks.len()
    }

    proof fn lemma_len(&self)
        requires
            self.wf(),
        ensures
            self@.dom().len() == self.tasks@.len(),
            self@.dom().finite(),
    {
        lemma_table_len(self.tasks@);
    }

    fn position(&self, id: u128) -> (r: Option<usize>)
        requires
            self.wf(),
        ensures
            match r {
                Some(i) => i < self.tasks@.len() && self.tasks@[i as int].id == id,
                None => !has_id(self.tasks@, id),
            },
    {
        let mut i: usize = 0;
        while i < self.tasks.len()
            invariant
                i <= self.tasks@.len(),
                forall|k: int| 0 <= k < i ==> #[trigger] self.tasks@[k].id != id,
            decreases self.tasks.len() - i,
        {
            if self.tasks[i].id == id {
                return Some(i);
            }
            i = i + 1;
        }
        None
    }

    /// Add a task, or replace the task with its id.
    pub fn insert(&mut self, task: PollingTask)
        requires
            old(self).wf(),
        ensures
            final(self).wf(),
            final(self)@ == old(self)@.insert(task.id, task.model()),
    {
        let ghost s = self.tasks@;
        let ghost m = self@.insert(task.id, task.model());
        let ghost tid = task.id;
        proof {
            lemma_table_dom(s, tid);
        }
        match self.position(task.id) {
            Some(i) => {
                self.tasks.set(i, task);
                proof {
                    let a = self.tasks@;
                    assert forall|x: int, y: int| 0 <= x < y < a.len() implies #[trigger] a[x].id != #[trigger] a[y].id by {
                        assert(a[x].id == s[x].id);
                        assert(a[y].id == s[y].id);
                    }
                    assert forall|j: int| 0 <= j < a.len() implies m.contains_key(#[trigger] a[j].id) && m[a[j].id]
                        == a[j].model() by {
                        if j != i {
                            lemma_table_value(s, j);
                            assert(s[j].id != s[i as int].id);
                        }
                    }
                    assert forall|k: u128| m.contains_key(k) implies has_id(a, k) by {
                        if k == tid {
                            assert(a[i as int].id == k);
                        } else {
                            lemma_table_dom(s, k);
                            let j = choose|j: int| 0 <= j < s.len() && #[trigger] s[j].id == k;
                            assert(a[j].id == k);
                        }
                    }
                    lemma_table_equal(a, m);
                }
            },
            None => {
                self.tasks.push(task);
                proof {
                    let a = self.tasks@;
                    assert(a.drop_last() =~= s);
                    assert forall|x: int, y: int| 0 <= x < y < a.len() implies #[trigger] a[x].id != #[trigger] a[y].id by {
                        if y == a.len() - 1 {
                            assert(s[x].id == a[x].id);
                        } else {
                            assert(a[x] == s[x] && a[y] == s[y]);
                        }
                    }
                }
            },
        }
    }

    /// Remove the task with this id, if there is one.
    pub fn remove(&mut self, id: u128)
        requires
            old(self).wf(),
        ensures
            final(self).wf(),
            final(self)@ == old(self)@.remove(id),
    {
        let ghost s = self.tasks@;
        let ghost m = self@.remove(id);
        proof {
            lemma_table_dom(s, id);
        }
        match self.position(id) {
            Some(i) => {
                self.tasks.remove(i);
                proof {
                    let a = self.tasks@;
                    assert forall|j: int| 0 <= j < a.len() implies #[trigger] a[j] == (if j < i {
                        s[j]
                    } else {
                        s[j + 1]
                    }) by {}
                    assert forall|x: int, y: int| 0 <= x < y < a.len() implies #[trigger] a[x].id != #[trigger] a[y].id by {
                        let xs = if x < i { x } else { x + 1 };
                        let ys = if y < i { y } else { y + 1 };
                        assert(a[x] == s[xs]);
                        assert(a[y] == s[ys]);
                    }
                    assert forall|j: int| 0 <= j < a.len() implies m.contains_key(#[trigger] a[j].id) && m[a[j].id]
                        == a[j].model() by {
                        let js = if j < i { j } else { j + 1 };
                        assert(a[j] == s[js]);
                        lemma_table_value(s, js);
                        assert(s[js].id != s[i as int].id);
                    }
                    assert forall|k: u128| m.contains_key(k) implies has_id(a, k) by {
                        lemma_table_dom(s, k);
                        let j = choose|j: int| 0 <= j < s.len() && #[trigger] s[j].id == k;
                        assert(j != i);
                        let ja = if j < i { j } else { j - 1 };
                        assert(a[ja] == s[j]);
                    }
                    lemma_table_equal(a, m);
                }
            },
            None => {
                assert(m =~= self@);
            },
        }
    }

    /// Enable or disable the task with this id, if there is one.
    pub fn set_enabled(&mut self, id: u128, enabled: bool)
        requires
            old(self).wf(),
        ensures
            final(self).wf(),
            final(self)@ == (if old(self)@.contains_key(id) {
                old(self)@.insert(id, with_enabled(old(self)@[id], enabled))
            } else {
                old(self)@
            }),
    {
        proof {
            lemma_table_dom(self.tasks@, id);
        }
        match self.position(id) {
            Some(i) => {
                let mut t = self.tasks[i].duplicate();
                t.enabled = enabled;
                proof {
                    lemma_table_value(self.tasks@, i as int);
                    assert(t.model() == with_enabled(self@[id], enabled));
                }
                self.insert(t);
            },
            None => {},
        }
    }

    /// A copy of the task with this id, if there is one.
    pub fn get(&self, id: u128) -> (r: Option<PollingTask>)
        requires
            self.wf(),
        ensures
            match r {
                Some(t) => self@.contains_key(id) && t.model() == self@[id],
                None => !self@.contains_key(id),
            },
    {
        proof {
            lemma_table_dom(self.tasks@, id);
        }
        match self.position(id) {
            Some(i) => {
                proof {
                    lemma_table_value(self.tasks@, i as int);
                }
                Some(self.tasks[i].duplicate())
            },
            None => None,
        }
    }

    /// Copies of all the tasks.
    pub fn list(&self) -> (r: Vec<PollingTask>)
        requires
            self.wf(),
        ensures
            distinct_ids(r@),
            table_map(r@) == self@,
            r@.len() == self@.dom().len(),
    {
        let mut r: Vec<PollingTask> = Vec::new();
        let mut i: usize = 0;
        while i < self.tasks.len()
            invariant
                i <= self.tasks@.len(),
                r@.len() == i,
                forall|k: int| 0 <= k < i ==> (#[trigger] r@[k]).model() == self.tasks@[k].model(),
            decreases self.tasks.len() - i,
        {
            r.push(self.tasks[i].duplicate());
            i = i + 1;
        }
        proof {
            let s = self.tasks@;
            let a = r@;
            assert forall|x: int, y: int| 0 <= x < y < a.len() implies #[trigger] a[x].id != #[trigger] a[y].id by {
                assert(a[x].model().id == s[x].model().id);
                assert(a[y].model().id == s[y].model().id);
            }
            assert forall|j: int| 0 <= j < a.len() implies self@.contains_key(#[trigger] a[j].id) && self@[a[j].id]
                == a[j].model() by {
                assert(a[j].model().id == s[j].model().id);
                lemma_table_value(s, j);
            }
            assert forall|k: u128| self@.contains_key(k) implies has_id(a, k) by {
                lemma_table_dom(s, k);
                let j = choose|j: int| 0 <= j < s.len() && #[trigger] s[j].id == k;
                assert(a[j].model().id == s[j].model().id);
            }
            lemma_table_equal(a, self@);
            self.lemma_len();
        }
        r
    }
}

proof fn lemma_table_len(s: Seq<PollingTask>)
    requires
        distinct_ids(s),
    ensures
        table_map(s).dom().len() == s.len(),
        table_map(s).dom().finite(),
    decreases s.len(),
{
    if s.len() > 0 {
        let d = s.drop_last();
        assert(distinct_ids(d)) by {
            assert forall|a: int, b: int| 0 <= a < b < d.len() implies #[trigger] d[a].id != #[trigger] d[b].id by {
                assert(s[a].id != s[b].id);
            }
        }
        lemma_table_len(d);
        lemma_table_dom(d, s.last().id);
        if has_id(d, s.last().id) {
            let i = choose|i: int| 0 <= i < d.len() && #[trigger] d[i].id == s.last().id;
            assert(s[i].id != s[s.len() - 1].id);
        }
    }
}


// ---------------------------------------------------------------------------
// Control messages
// ---------------------------------------------------------------------------

/// Message types for the polling scheduler
#[derive(Debug)]
pub enum PollingMessage {
    /// Add a new polling task
    AddTask(PollingTask),
    /// Remove a polling task by ID
    RemoveTask(u128),
    /// Update an existing polling task
    UpdateTask(PollingTask),
    /// Enable/disable a task
    EnableTask(u128, bool),
    /// Get current task status
    GetTaskStatus(u128),
    /// List all tasks
    ListTasks,
    /// Shutdown the scheduler
    Shutdown,
}

/// What the scheduler answers a message with.
#[derive(Debug)]
pub enum PollingReply {
    /// The message asks for no answer
    NoReply,
    /// The task asked for, if there is one
    TaskStatus(Option<PollingTask>),
    /// All the tasks
    TaskList(Vec<PollingTask>),
}

/// The table after a message.
pub open spec fn after_message(m: Map<u128, TaskModel>, msg: PollingMessage) -> Map<u128, TaskModel> {
    match msg {
        PollingMessage::AddTask(t) => m.insert(t.id, t.model()),
        PollingMessage::UpdateTask(t) => m.insert(t.id, t.model()),
        PollingMessage::RemoveTask(id) => m.remove(id),
        PollingMessage::EnableTask(id, enabled) => if m.contains_key(id) {
            m.insert(id, with_enabled(m[id], enabled))
        } else {
            m
        },
        _ => m,
    }
}

impl PollingTasks {
    /// Handle a control message: change the table as it asks, and answer
    /// it. Returns whether the scheduler is to shut down, and the answer.
    pub fn handle_message(&mut self, message: PollingMessage) -> (r: (bool, PollingReply))
        requires
            old(self).wf(),
        ensures
            final(self).wf(),
            final(self)@ == after_message(old(self)@, message),
            r.0 == (message is Shutdown),
            match message {
                PollingMessage::GetTaskStatus(id) => r.1 matches PollingReply::TaskStatus(o) && match o {
                    Some(t) => old(self)@.contains_key(id) && t.model() == old(self)@[id],
                    None => !old(self)@.contains_key(id),
                },
                PollingMessage::ListTasks => r.1 matches PollingReply::TaskList(v) && distinct_ids(v@) && table_map(v@)
                    == old(self)@,
                _ => r.1 is NoReply,
            },
    {
        match message {
            PollingMessage::AddTask(task) => {
                self.insert(task);
                (false, PollingReply::NoReply)
            },
            PollingMessage::UpdateTask(task) => {
                self.insert(task);
                (false, PollingReply::NoReply)
            },
            PollingMessage::RemoveTask(id) => {
                self.remove(id);
                (false, PollingReply::NoReply)
            },
            PollingMessage::EnableTask(id, enabled) => {
                self.set_enabled(id, enabled);
                (false, PollingReply::NoReply)
            },
            PollingMessage::GetTaskStatus(id) => (false, PollingReply::TaskStatus(self.get(id))),
            PollingMessage::ListTasks => (false, PollingReply::TaskList(self.list())),
            PollingMessage::Shutdown => (true, PollingReply::NoReply),
        }
    }
}

// ---------------------------------------------------------------------------
// Due tasks
// ---------------------------------------------------------------------------

/// Whether the back-off of every task fits a `Duration`, and the reading
/// plus it fits the clock.
pub open spec fn schedulable(s: Seq<PollingTask>, reading: Span) -> bool {
    forall|i: int|
        0 <= i < s.len() ==> backoff_nanos(#[trigger] s[i].interval, s[i].consecutive_failures) / 1_000_000_000
            <= u64::MAX && reading.nanos + backoff_nanos(s[i].interval, s[i].consecutive_failures) <= u128::MAX
}

/// A task is due at `now` when it is enabled and `now` has reached its
/// next poll time, computed from the clock reading `reading`.
pub open spec fn is_due(t: PollingTask, now: Span, reading: Span) -> bool {
    t.enabled && now.nanos >= reading.nanos + backoff_nanos(t.interval, t.consecutive_failures)
}

/// The ids of the due tasks of one priority, in table order.
pub open spec fn due_of_priority(s: Seq<PollingTask>, now: Span, reading: Span, p: int) -> Seq<u128>
    decreases s.len(),
{
    if s.len() == 0 {
        Seq::empty()
    } else {
        due_of_priority(s.drop_last(), now, reading, p) + if is_due(s.last(), now, reading) && s.last().priority == p {
            seq![s.last().id]
        } else {
            Seq::empty()
        }
    }
}

/// The ids of the due tasks of priority `p` or lower, higher priorities
/// first, each priority in table order (a stable sort by priority).
pub open spec fn due_order(s: Seq<PollingTask>, now: Span, reading: Span, p: int) -> Seq<u128>
    decreases p + 1,
{
    if p < 0 {
        Seq::empty()
    } else {
        due_of_priority(s, now, reading, p) + due_order(s, now, reading, p - 1)
    }
}

/// A sequence cut into consecutive batches of `n`, the last one shorter.
pub open spec fn batches(s: Seq<u128>, n: nat) -> Seq<Seq<u128>>
    decreases s.len(),
{
    if n == 0 || s.len() == 0 {
        Seq::empty()
    } else if s.len() <= n {
        seq![s]
    } else {
        seq![s.take(n as int)] + batches(s.skip(n as int), n)
    }
}

pub open spec fn batches_view(b: Seq<Vec<u128>>) -> Seq<Seq<u128>> {
    b.map_values(|v: Vec<u128>| v@)
}

fn backoff_factor_exec(failures: u32) -> (f: u128)
    ensures
        f == backoff_factor(failures),
{
    if failures == 0 {
        1
    } else if failures == 1 {
        2
    } else if failures == 2 {
        4
    } else if failures == 3 {
        8
    } else if failures == 4 {
        16
    } else {
        32
    }
}

impl PollingTasks {
    /// Whether the next poll time of every task can be computed from the
    /// clock reading: each back-off fits a `Duration`, and the reading plus
    /// it fits the clock.
    pub fn is_schedulable(&self, reading: Span) -> (b: bool)
        ensures
            b == schedulable(self.tasks@, reading),
    {
        let mut i: usize = 0;
        while i < self.tasks.len()
            invariant
                i <= self.tasks@.len(),
                forall|k: int| 0 <= k < i ==> backoff_nanos(#[trigger] self.tasks@[k].interval, self.tasks@[k].consecutive_failures)
                    / 1_000_000_000 <= u64::MAX && reading.nanos + backoff_nanos(self.tasks@[k].interval, self.tasks@[k].consecutive_failures)
                    <= u128::MAX,
            decreases self.tasks.len() - i,
        {
            let t = &self.tasks[i];
            let f = backoff_factor_exec(t.consecutive_failures);
            match t.interval.nanos.checked_mul(f) {
                None => {
                    assert(!(backoff_nanos(t.interval, t.consecutive_failures) / 1_000_000_000 <= u64::MAX && reading.nanos
                        + backoff_nanos(t.interval, t.consecutive_failures) <= u128::MAX));
                    return false;
                },
                Some(b) => {
                    if b / 1_000_000_000 > u64::MAX as u128 {
                        return false;
                    }
                    match reading.nanos.checked_add(b) {
                        None => {
                            return false;
                        },
                        Some(_) => {},
                    }
                },
            }
            i = i + 1;
        }
        true
    }

    fn due_of_priority_exec(&self, now: Span, reading: Span, p: u8, out: &mut Vec<u128>)
        requires
            schedulable(self.tasks@, reading),
        ensures
            final(out)@ == old(out)@ + due_of_priority(self.tasks@, now, reading, p as int),
    {
        let ghost start = out@;
        let mut i: usize = 0;
        while i < self.tasks.len()
            invariant
                i <= self.tasks@.len(),
                schedulable(self.tasks@, reading),
                out@ == start + due_of_priority(self.tasks@.take(i as int), now, reading, p as int),
            decreases self.tasks.len() - i,
        {
            let t = &self.tasks[i];
            let ghost before = out@;
            proof {
                let tk = self.tasks@.take(i + 1);
                assert(tk.drop_last() =~= self.tasks@.take(i as int));
                assert(tk.last() == *t);
                assert(backoff_nanos(self.tasks@[i as int].interval, self.tasks@[i as int].consecutive_failures)
                    / 1_000_000_000 <= u64::MAX);
            }
            if t.enabled && t.priority == p {
                let next = t.next_poll_time(reading);
                if now.nanos >= next.nanos {
                    out.push(t.id);
                }
            }
            proof {
                let tk = self.tasks@.take(i + 1);
                assert(out@ =~= start + due_of_priority(tk, now, reading, p as int));
            }
            i = i + 1;
        }
        assert(self.tasks@.take(i as int) =~= self.tasks@);
    }

    /// The ids of the tasks due at `now`, higher priorities first, cut into
    /// batches of at most `max_concurrent`; `reading` is the clock reading
    /// the next poll times are computed from.
    pub fn poll_batches(&self, now: Span, reading: Span, max_concurrent: usize) -> (r: Vec<Vec<u128>>)
        requires
            max_concurrent > 0,
            schedulable(self.tasks@, reading),
        ensures
            batches_view(r@) == batches(due_order(self.tasks@, now, reading, 255), max_concurrent as nat),
    {
        let mut ids: Vec<u128> = Vec::new();
        let mut p: u16 = 256;
        while p > 0
            invariant
                p <= 256,
                schedulable(self.tasks@, reading),
                ids@ + due_order(self.tasks@, now, reading, p - 1) == due_order(self.tasks@, now, reading, 255),
            decreases p,
        {
            p = p - 1;
            let ghost before = ids@;
            self.due_of_priority_exec(now, reading, p as u8, &mut ids);
            proof {
                assert(ids@ + due_order(self.tasks@, now, reading, p - 1) =~= before + due_order(
                    self.tasks@,
                    now,
                    reading,
                    p as int,
                ));
            }
        }
        proof {
            assert(due_order(self.tasks@, now, reading, -1) == Seq::<u128>::empty());
            assert(ids@ =~= due_order(self.tasks@, now, reading, 255));
        }
        chunk_ids(&ids, max_concurrent)
    }
}

fn chunk_ids(ids: &Vec<u128>, n: usize) -> (r: Vec<Vec<u128>>)
    requires
        n > 0,
    ensures
        batches_view(r@) == batches(ids@, n as nat),
{
    let mut r: Vec<Vec<u128>> = Vec::new();
    let mut i: usize = 0;
    assert(ids@.skip(0) =~= ids@);
    while i < ids.len()
        invariant
            n > 0,
            i <= ids@.len(),
            batches_view(r@) + batches(ids@.skip(i as int), n as nat) == batches(ids@, n as nat),
        decreases ids.len() - i,
    {
        let end: usize = if ids.len() - i <= n {
            ids.len()
        } else {
            i + n
        };
        let mut b: Vec<u128> = Vec::new();
        let mut j: usize = i;
        while j < end
            invariant
                i <= j <= end,
                end <= ids@.len(),
                b@ == ids@.subrange(i as int, j as int),
            decreases end - j,
        {
            b.push(ids[j]);
            j = j + 1;
        }
        let ghost rest = ids@.skip(i as int);
        let ghost before = batches_view(r@);
        r.push(b);
        proof {
            if rest.len() <= n {
                assert(b@ =~= rest);
                assert(ids@.skip(end as int) =~= Seq::<u128>::empty());
            } else {
                assert(b@ =~= rest.take(n as int));
                assert(rest.skip(n as int) =~= ids@.skip(end as int));
            }
            assert(batches_view(r@) =~= before.push(b@));
            assert(batches_view(r@) + batches(ids@.skip(end as int), n as nat) =~= before + batches(rest, n as nat));
        }
        i = end;
    }
    assert(ids@.skip(i as int) =~= Seq::<u128>::empty());
    assert(batches_view(r@) + batches(ids@.skip(i as int), n as nat) =~= batches_view(r@));
    r
}

// ---------------------------------------------------------------------------
// Health cleanup
// ---------------------------------------------------------------------------

/// Whether the cleanup keeps a task: it is healthy within three health
/// check intervals, or it is enabled.
pub open spec fn kept(m: TaskModel, health_check_interval: Span, now: Span) -> bool {
    healthy_at(m.last_success, m.consecutive_failures, Span { nanos: (health_check_interval.nanos * 3) as u128 }, now)
        || m.enabled
}

impl PollingTasks {
    /// Drop the tasks that are neither healthy nor enabled at time `now`.
    pub fn retain_healthy(&mut self, health_check_interval: Span, now: Span)
        requires
            old(self).wf(),
            health_check_interval.nanos * 3 <= u128::MAX,
        ensures
            final(self).wf(),
            final(self)@ == old(self)@.restrict(
                old(self)@.dom().filter(|id: u128| kept(old(self)@[id], health_check_interval, now)),
            ),
    {
        let ghost s = self.tasks@;
        let ghost m = self@;
        let ghost keep = m.dom().filter(|id: u128| kept(m[id], health_check_interval, now));
        let ghost want = m.restrict(keep);
        let age = Span { nanos: health_check_interval.nanos * 3 };
        let mut out: Vec<PollingTask> = Vec::new();
        let ghost mut src: Seq<int> = Seq::empty();
        let mut i: usize = 0;
        while i < self.tasks.len()
            invariant
                i <= self.tasks@.len(),
                self.tasks@ == s,
                distinct_ids(s),
                m == table_map(s),
                age.nanos == health_check_interval.nanos * 3,
                src.len() == out@.len(),
                forall|k: int| 0 <= k < src.len() ==> 0 <= #[trigger] src[k] < i,
                forall|a: int, b: int| 0 <= a < b < src.len() ==> #[trigger] src[a] < #[trigger] src[b],
                forall|k: int| 0 <= k < out@.len() ==> (#[trigger] out@[k]).model() == s[src[k]].model(),
                forall|j: int| 0 <= j < i ==> (kept(#[trigger] s[j].model(), health_check_interval, now) <==> exists|k: int|
                    0 <= k < src.len() && src[k] == j),
            decreases self.tasks.len() - i,
        {
            let t = &self.tasks[i];
            let keep_it = t.is_healthy_at(age, now) || t.enabled;
            let ghost old_src = src;
            proof {
                assert(age == Span { nanos: (health_check_interval.nanos * 3) as u128 });
                assert(keep_it == kept(s[i as int].model(), health_check_interval, now));
            }
            if keep_it {
                out.push(t.duplicate());
                proof {
                    src = src.push(i as int);
                }
            }
            proof {
                assert forall|j: int| 0 <= j < i + 1 implies (kept(#[trigger] s[j].model(), health_check_interval, now)
                    <==> exists|k: int| 0 <= k < src.len() && src[k] == j) by {
                    if j == i && keep_it {
                        assert(src[src.len() - 1] == j);
                    }
                    if j < i {
                        if exists|k: int| 0 <= k < old_src.len() && old_src[k] == j {
                            let k = choose|k: int| 0 <= k < old_src.len() && old_src[k] == j;
                            assert(src[k] == j);
                        }
                        if exists|k: int| 0 <= k < src.len() && src[k] == j {
                            let k = choose|k: int| 0 <= k < src.len() && src[k] == j;
                            if k < old_src.len() {
                                assert(old_src[k] == j);
                            }
                        }
                    }
                    if j == i && !keep_it {
                        assert(src == old_src);
                        if exists|k: int| 0 <= k < src.len() && src[k] == j {
                            let k = choose|k: int| 0 <= k < src.len() && src[k] == j;
                            assert(src[k] < i);
                        }
                    }
                }
            }
            i = i + 1;
        }
        proof {
            let a = out@;
            assert forall|x: int, y: int| 0 <= x < y < a.len() implies #[trigger] a[x].id != #[trigger] a[y].id by {
                assert(a[x].model().id == s[src[x]].model().id);
                assert(a[y].model().id == s[src[y]].model().id);
                assert(src[x] < src[y]);
            }
            assert forall|j: int| 0 <= j < a.len() implies want.contains_key(#[trigger] a[j].id) && want[a[j].id]
                == a[j].model() by {
                let js = src[j];
                assert(a[j].model().id == s[js].id);
                lemma_table_value(s, js);
                assert(exists|k: int| 0 <= k < src.len() && src[k] == js);
                assert(kept(s[js].model(), health_check_interval, now));
                assert(keep.contains(s[js].id));
            }
            assert forall|k: u128| want.contains_key(k) implies has_id(a, k) by {
                lemma_table_dom(s, k);
                let j = choose|j: int| 0 <= j < s.len() && #[trigger] s[j].id == k;
                lemma_table_value(s, j);
                assert(kept(s[j].model(), health_check_interval, now));
                let w = choose|w: int| 0 <= w < src.len() && src[w] == j;
                assert(a[w].model().id == s[j].id);
            }
            lemma_table_equal(a, want);
        }
        self.tasks = out;
    }
}


// ---------------------------------------------------------------------------
// Laws
// ---------------------------------------------------------------------------

/// A task that was added, or updated, is what its id then reads back.
pub proof fn law_add_then_status(m: Map<u128, TaskModel>, t: PollingTask)
    ensures
        after_message(m, PollingMessage::AddTask(t)).contains_key(t.id),
        after_message(m, PollingMessage::AddTask(t))[t.id] == t.model(),
{
}

/// Adding or updating a task leaves every other id as it was.
pub proof fn law_add_keeps_others(m: Map<u128, TaskModel>, t: PollingTask, other: u128)
    requires
        other != t.id,
    ensures
        after_message(m, PollingMessage::AddTask(t)).contains_key(other) == m.contains_key(other),
        m.contains_key(other) ==> after_message(m, PollingMessage::AddTask(t))[other] == m[other],
{
}

/// A removed id reads back nothing; other ids are left as they were.
pub proof fn law_remove_then_status(m: Map<u128, TaskModel>, id: u128, other: u128)
    requires
        other != id,
    ensures
        !after_message(m, PollingMessage::RemoveTask(id)).contains_key(id),
        after_message(m, PollingMessage::RemoveTask(id)).contains_key(other) == m.contains_key(other),
        m.contains_key(other) ==> after_message(m, PollingMessage::RemoveTask(id))[other] == m[other],
{
}

/// Enabling or disabling changes the enabled flag of that task and nothing
/// else; an unknown id changes nothing.
pub proof fn law_enable_only_flag(m: Map<u128, TaskModel>, id: u128, enabled: bool)
    ensures
        after_message(m, PollingMessage::EnableTask(id, enabled)).dom() == m.dom(),
        m.contains_key(id) ==> after_message(m, PollingMessage::EnableTask(id, enabled))[id] == with_enabled(
            m[id],
            enabled,
        ),
        m.contains_key(id) ==> after_message(m, PollingMessage::EnableTask(id, enabled))[id].enabled == enabled,
        !m.contains_key(id) ==> after_message(m, PollingMessage::EnableTask(id, enabled)) == m,
{
    if m.contains_key(id) {
        assert(m.insert(id, with_enabled(m[id], enabled)).dom() =~= m.dom());
    }
}

/// Queries and the shutdown request leave the table as it was.
pub proof fn law_queries_change_nothing(m: Map<u128, TaskModel>, id: u128)
    ensures
        after_message(m, PollingMessage::GetTaskStatus(id)) == m,
        after_message(m, PollingMessage::ListTasks) == m,
        after_message(m, PollingMessage::Shutdown) == m,
{
}

/// The back-off doubles with each consecutive failure up to five, and
/// stays at thirty-two times the interval after that.
pub proof fn law_backoff_doubles_then_caps(interval: Span, failures: u32)
    ensures
        failures < 5 ==> backoff_nanos(interval, (failures + 1) as u32) == 2 * backoff_nanos(interval, failures),
        failures >= 5 ==> backoff_nanos(interval, failures) == 32 * interval.nanos,
        backoff_nanos(interval, failures) <= 32 * interval.nanos,
        backoff_nanos(interval, 0) == interval.nanos,
{
    let n = interval.nanos as nat;
    assert(n * 1 == n) by (nonlinear_arith);
    assert(n * 2 == 2 * (n * 1)) by (nonlinear_arith);
    assert(n * 4 == 2 * (n * 2)) by (nonlinear_arith);
    assert(n * 8 == 2 * (n * 4)) by (nonlinear_arith);
    assert(n * 16 == 2 * (n * 8)) by (nonlinear_arith);
    assert(n * 32 == 2 * (n * 16)) by (nonlinear_arith);
    assert(n * 32 == 32 * n) by (nonlinear_arith);
}

pub open spec fn flatten(b: Seq<Seq<u128>>) -> Seq<u128>
    decreases b.len(),
{
    if b.len() == 0 {
        Seq::empty()
    } else {
        b[0] + flatten(b.drop_first())
    }
}

/// The batches of a poll round hold every due id once, in order, and none
/// holds more than the limit or nothing.
pub proof fn law_batches_cover(s: Seq<u128>, n: nat)
    requires
        n > 0,
    ensures
        flatten(batches(s, n)) == s,
        forall|k: int| 0 <= k < batches(s, n).len() ==> 0 < (#[trigger] batches(s, n)[k]).len() <= n,
    decreases s.len(),
{
    if s.len() == 0 {
    } else if s.len() <= n {
        assert(batches(s, n).drop_first() =~= Seq::<Seq<u128>>::empty());
        assert(flatten(Seq::<Seq<u128>>::empty()) == Seq::<u128>::empty());
        assert(batches(s, n)[0] == s);
        assert(flatten(batches(s, n)) =~= s);
    } else {
        let rest = s.skip(n as int);
        law_batches_cover(rest, n);
        let b = batches(s, n);
        assert(b.drop_first() =~= batches(rest, n));
        assert(s.take(n as int) + rest =~= s);
        assert forall|k: int| 0 <= k < b.len() implies 0 < (#[trigger] b[k]).len() <= n by {
            if k > 0 {
                assert(b[k] == batches(rest, n)[k - 1]);
            }
        }
    }
}

} // verus!
