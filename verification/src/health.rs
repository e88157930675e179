//! Health of a backend: how a probe's outcome is classified, how a state is
//! rendered, and when a new state is published.

use vstd::prelude::*;
use vstd::string::StringExecFns;
use crate::server::http_uri_text;
use crate::server::BackendPool;
use crate::text::decimal_i64;
use crate::text::decimal_int;
use crate::text::decimal_nat;
use crate::text::decimal_u64;

verus! {

/// Seconds between two rounds of health checks.
pub const CHECK_INTERVAL: i64 = 20;

/// Health-check parameters of one pool.
#[derive(Debug, PartialEq, Eq)]
pub struct HealthConfig {
    /// Milliseconds above which a successful answer counts as slow.
    pub slow_threshold: i64,
    /// Seconds between two checks of the pool.
    pub interval: i64,
    /// Milliseconds granted to each of connecting, reading and writing.
    pub timeout: u64,
    /// Path and query that a probe asks for.
    pub path: String,
}

/// The most recent probe outcome recorded for one backend address.
#[derive(Debug, Clone, Copy, PartialEq, Eq, Structural)]
pub enum Healthiness {
    Healthy,
    /// Answered with success, after this many milliseconds.
    Slow(i64),
    /// Did not answer with success; holds the status code if there was an answer.
    Unresponsive(Option<u16>),
}

/// What the transport reports of one probe.
#[derive(Debug, Clone, Copy, PartialEq, Eq, Structural)]
pub enum ProbeOutcome {
    /// A response arrived, with this status code, this long after the request
    /// was started.
    Responded { status: u16, elapsed_ms: u128 },
    /// Connecting, reading or writing took longer than the configured timeout.
    TimedOut,
    /// The connection could not be made or broke.
    ConnectionFailed,
}

/// Whether a status code is in the success class, 200 to 299.
pub open spec fn is_success(status: u16) -> bool {
    200 <= status < 300
}

/// The state that a probe outcome stands for, under a pool's slowness threshold.
pub open spec fn classification(outcome: ProbeOutcome, slow_threshold: i64) -> Healthiness {
    match outcome {
        ProbeOutcome::Responded { status, elapsed_ms } => {
            if !is_success(status) {
                Healthiness::Unresponsive(Some(status))
            } else if elapsed_ms > slow_threshold {
                Healthiness::Slow(elapsed_ms as i64)
            } else {
                Healthiness::Healthy
            }
        },
        ProbeOutcome::TimedOut => Healthiness::Unresponsive(None),
        ProbeOutcome::ConnectionFailed => Healthiness::Unresponsive(None),
    }
}

/// Whether the elapsed time of a successful answer fits the `Slow` variant.
pub open spec fn elapsed_fits(outcome: ProbeOutcome) -> bool {
    outcome matches ProbeOutcome::Responded { status, elapsed_ms } ==> (is_success(status)
        ==> elapsed_ms <= i64::MAX)
}

/// Tells whether `status` is in the success class.
pub fn status_is_success(status: u16) -> (r: bool)
    ensures
        r == is_success(status),
{
    300 > status && status >= 200
}

/// Classifies one probe outcome.
pub fn classify_probe(outcome: &ProbeOutcome, slow_threshold: i64) -> (state: Healthiness)
    requires
        elapsed_fits(*outcome),
    ensures
        state == classification(*outcome, slow_threshold),
{
    match outcome {
        ProbeOutcome::Responded { status, elapsed_ms } => {
            if status_is_success(*status) {
                let response_time: i64 = *elapsed_ms as i64;
                if response_time > slow_threshold {
                    Healthiness::Slow(response_time)
                } else {
                    Healthiness::Healthy
                }
            } else {
                Healthiness::Unresponsive(Some(*status))
            }
        },
        ProbeOutcome::TimedOut => Healthiness::Unresponsive(None),
        ProbeOutcome::ConnectionFailed => Healthiness::Unresponsive(None),
    }
}

impl Healthiness {
    /// Whether a backend in this state may be chosen for a request.
    pub open spec fn eligible(self) -> bool {
        !(self is Unresponsive)
    }

    /// The text of this state in a log event.
    pub open spec fn rendering(self) -> Seq<char> {
        match self {
            Healthiness::Healthy => "Healthy"@,
            Healthiness::Slow(response_time) => "Slow "@ + decimal_int(response_time as int),
            Healthiness::Unresponsive(Some(status_code)) => "Unresponsive, status: "@
                + decimal_nat(status_code as nat),
            Healthiness::Unresponsive(None) => "Unresponsive"@,
        }
    }

    /// Tells whether a backend in this state may be chosen for a request.
    pub fn is_eligible(&self) -> (r: bool)
        ensures
            r == self.eligible(),
    {
        match self {
            Healthiness::Unresponsive(_) => false,
            _ => true,
        }
    }

    /// Renders this state for a log event.
    pub fn to_string(&self) -> (s: String)
        ensures
            s@ == self.rendering(),
    {
        match self {
            Healthiness::Healthy => String::from_str("Healthy"),
            Healthiness::Slow(response_time) => {
                let mut s = String::from_str("Slow ");
                s.append(decimal_i64(*response_time).as_str());
                s
            },
            Healthiness::Unresponsive(Some(status_code)) => {
                let mut s = String::from_str("Unresponsive, status: ");
                s.append(decimal_u64(*status_code as u64).as_str());
                s
            },
            Healthiness::Unresponsive(None) => String::from_str("Unresponsive"),
        }
    }
}

/// The log event for a backend whose state became `state`.
pub open spec fn health_log_line(address: Seq<char>, state: Healthiness) -> Seq<char> {
    "new healthiness for "@ + address + ": "@ + state.rendering()
}

/// The text of an optional string.
pub open spec fn text_of(text: Option<String>) -> Option<Seq<char>> {
    match text {
        Some(t) => Some(t@),
        None => None,
    }
}

/// What a probe result asks for, for a backend whose published state is
/// `previous`: nothing where the state is unchanged, else to publish the result
/// and to log this event.
pub open spec fn change_notice(address: Seq<char>, previous: Healthiness, result: Healthiness)
    -> Option<Seq<char>> {
    if previous == result {
        None
    } else {
        Some(health_log_line(address, result))
    }
}

/// Decides whether a probe result is to be published: returns the log event of
/// the change, or `None` where the result equals the published state.
pub fn health_change(address: &str, previous: &Healthiness, result: &Healthiness) -> (notice:
    Option<String>)
    ensures
        text_of(notice) == change_notice(address@, *previous, *result),
{
    if *previous != *result {
        let mut line = String::from_str("new healthiness for ");
        line.append(address);
        line.append(": ");
        line.append(result.to_string().as_str());
        Some(line)
    } else {
        None
    }
}

/// A probe result equal to the published state asks for no publishing and no
/// log event, for every backend and every state; any other result asks for
/// both.
pub proof fn steady_state_is_silent(address: Seq<char>, published: Healthiness, result: Healthiness)
    ensures
        change_notice(address, published, published) is None,
        change_notice(address, published, result) is None <==> result == published,
{
}

/// A successful answer is healthy up to and including the threshold, and slow
/// from one millisecond more: at exactly the threshold it is healthy, one
/// millisecond later it is slow with that time.
pub proof fn latency_boundary(status: u16, elapsed_ms: u128, slow_threshold: i64)
    requires
        is_success(status),
        elapsed_ms <= i64::MAX,
    ensures
        elapsed_ms <= slow_threshold <==> classification(
            (ProbeOutcome::Responded { status, elapsed_ms }),
            slow_threshold,
        ) == Healthiness::Healthy,
        elapsed_ms == slow_threshold ==> classification(
            (ProbeOutcome::Responded { status, elapsed_ms }),
            slow_threshold,
        ) == Healthiness::Healthy,
        elapsed_ms == slow_threshold + 1 ==> classification(
            (ProbeOutcome::Responded { status, elapsed_ms }),
            slow_threshold,
        ) == Healthiness::Slow((slow_threshold + 1) as i64),
{
}

/// A probe that ran into its timeout, or whose connection failed, is
/// unresponsive without a status, whatever the threshold.
pub proof fn timeout_is_unresponsive(slow_threshold: i64)
    ensures
        classification(ProbeOutcome::TimedOut, slow_threshold) == Healthiness::Unresponsive(None),
        classification(ProbeOutcome::ConnectionFailed, slow_threshold) == Healthiness::Unresponsive(
            None,
        ),
{
}

/// An answer outside the success class is unresponsive with exactly its status
/// code, however fast it came.
pub proof fn failure_status_is_kept(status: u16, elapsed_ms: u128, slow_threshold: i64)
    requires
        !is_success(status),
    ensures
        classification((ProbeOutcome::Responded { status, elapsed_ms }), slow_threshold)
            == Healthiness::Unresponsive(Some(status)),
{
}

/// `chrono::Duration::seconds(seconds).to_std()`, as whole seconds: the same
/// number where it is not negative, `None` where it is.
#[verifier::external_body]
fn std_seconds(seconds: i64) -> (std: Option<u64>)
    requires
        -(i64::MAX / 1000) <= seconds <= i64::MAX / 1000,
    ensures
        std == (if seconds >= 0 {
            Some(seconds as u64)
        } else {
            None::<u64>
        }),
{
    match chrono::Duration::seconds(seconds).to_std() {
        Ok(duration) => Some(duration.as_secs()),
        Err(_) => None,
    }
}

/// The period of a timer that fires every `seconds` seconds, or `None` where
/// that is no period: a negative number, or one beyond `i64::MAX`
/// milliseconds.
pub fn interval_from_seconds(seconds: i64) -> (period: Option<u64>)
    ensures
        period == (if 0 <= seconds <= i64::MAX / 1000 {
            Some(seconds as u64)
        } else {
            None::<u64>
        }),
{
    if seconds < -(i64::MAX / 1000) || seconds > i64::MAX / 1000 {
        None
    } else {
        std_seconds(seconds)
    }
}

/// Seconds between two rounds of health checks, as a timer period.
pub fn check_interval() -> (seconds: u64)
    ensures
        seconds == CHECK_INTERVAL,
{
    match interval_from_seconds(CHECK_INTERVAL) {
        Some(seconds) => seconds,
        None => 0,
    }
}

/// One probe of a round: which backend to ask, where, and how long to wait.
#[derive(Debug)]
pub struct HealthCheck {
    /// Position of the pool in the snapshot.
    pub pool: usize,
    /// Position of the backend in the pool.
    pub address: usize,
    /// The URI to get, or `None` where the backend's address and the pool's
    /// path make none.
    pub uri: Option<String>,
    /// Milliseconds granted to connecting.
    pub connect_timeout: u64,
    /// Milliseconds granted to each read.
    pub read_timeout: u64,
    /// Milliseconds granted to each write.
    pub write_timeout: u64,
    /// Milliseconds above which a successful answer counts as slow.
    pub slow_threshold: i64,
}

impl HealthCheck {
    /// Whether this is the probe of backend `address` of pool `pool`: it asks
    /// for the pool's path at the backend's address, each of its three
    /// timeouts is the pool's, and so is its slowness threshold.
    pub open spec fn probes(self, pools: Seq<BackendPool>, pool: int, address: int) -> bool {
        &&& self.pool == pool
        &&& self.address == address
        &&& text_of(self.uri) == http_uri_text(
            pools[pool].addresses[address].address@,
            pools[pool].health_config.path@,
        )
        &&& self.connect_timeout == pools[pool].health_config.timeout
        &&& self.read_timeout == pools[pool].health_config.timeout
        &&& self.write_timeout == pools[pool].health_config.timeout
        &&& self.slow_threshold == pools[pool].health_config.slow_threshold
    }
}

/// The number of backends in all pools together.
pub open spec fn backend_count(pools: Seq<BackendPool>) -> nat
    decreases pools.len(),
{
    if pools.len() == 0 {
        0
    } else {
        backend_count(pools.drop_last()) + pools.last().addresses@.len()
    }
}

/// The place of a backend's probe in a round: after those of all backends of
/// earlier pools and of the earlier backends of its own pool.
pub open spec fn check_position(pools: Seq<BackendPool>, pool: int, address: int) -> int {
    backend_count(pools.take(pool)) + address
}

/// Plans one round of health checks: one probe for every backend of every
/// pool, pool by pool and in each pool in the order of its addresses.
pub fn plan_health_checks(pools: &Vec<BackendPool>) -> (checks: Vec<HealthCheck>)
    ensures
        checks@.len() == backend_count(pools@),
        forall|p: int, a: int|
            0 <= p < pools@.len() && 0 <= a < pools@[p].addresses@.len() ==> (0
                <= #[trigger] check_position(pools@, p, a) < checks@.len() && checks@[check_position(
                pools@,
                p,
                a,
            )].probes(pools@, p, a)),
{
    let mut checks: Vec<HealthCheck> = Vec::new();
    let mut p: usize = 0;
    while p < pools.len()
        invariant
            p <= pools.len(),
            checks@.len() == backend_count(pools@.take(p as int)),
            forall|q: int, a: int|
                0 <= q < p && 0 <= a < pools@[q].addresses@.len() ==> {
                    &&& 0 <= #[trigger] check_position(pools@, q, a) < checks@.len()
                    &&& checks@[check_position(pools@, q, a)].probes(pools@, q, a)
                },
        decreases pools.len() - p,
    {
        let pool = &pools[p];
        let mut a: usize = 0;
        while a < pool.addresses.len()
            invariant
                p < pools.len(),
                *pool == pools@[p as int],
                a <= pool.addresses.len(),
                checks@.len() == backend_count(pools@.take(p as int)) + a,
                forall|q: int, b: int|
                    0 <= q < p && 0 <= b < pools@[q].addresses@.len() ==> {
                        &&& 0 <= #[trigger] check_position(pools@, q, b) < checks@.len()
                        &&& checks@[check_position(pools@, q, b)].probes(pools@, q, b)
                    },
                forall|b: int|
                    0 <= b < a ==> {
                        &&& 0 <= #[trigger] check_position(pools@, p as int, b) < checks@.len()
                        &&& checks@[check_position(pools@, p as int, b)].probes(
                            pools@,
                            p as int,
                            b,
                        )
                    },
            decreases pool.addresses.len() - a,
        {
            let uri = pool.addresses[a].uri(pool.health_config.path.as_str());
            let timeout = pool.health_config.timeout;
            checks.push(
                HealthCheck {
                    pool: p,
                    address: a,
                    uri,
                    connect_timeout: timeout,
                    read_timeout: timeout,
                    write_timeout: timeout,
                    slow_threshold: pool.health_config.slow_threshold,
                },
            );
            a += 1;
        }
        assert(pools@.take(p + 1).drop_last() =~= pools@.take(p as int));
        p += 1;
    }
    assert(pools@.take(p as int) =~= pools@);
    checks
}

/// The backends of the first `p` pools are no more than those of the first
/// `q`, for `p <= q`.
proof fn backend_count_grows(pools: Seq<BackendPool>, p: int, q: int)
    requires
        0 <= p <= q <= pools.len(),
    ensures
        backend_count(pools.take(p)) <= backend_count(pools.take(q)),
        p < q ==> backend_count(pools.take(p)) + pools[p].addresses@.len() <= backend_count(
            pools.take(q),
        ),
    decreases q - p,
{
    if p < q {
        assert(pools.take(q).drop_last() =~= pools.take(q - 1));
        backend_count_grows(pools, p, q - 1);
    }
}

/// Whether place `k` of a round's plan is that of some backend of some pool.
pub open spec fn place_has_backend(pools: Seq<BackendPool>, k: int) -> bool {
    exists|p: int, a: int|
        0 <= p < pools.len() && 0 <= a < pools[p].addresses@.len() && #[trigger] check_position(
            pools,
            p,
            a,
        ) == k
}

/// A round probes every backend once: two different backends have different
/// places in the plan, and every place below the number of backends is that of
/// a backend.
pub proof fn every_backend_is_probed_once(pools: Seq<BackendPool>)
    ensures
        forall|p: int, a: int, q: int, b: int|
            0 <= p < pools.len() && 0 <= a < pools[p].addresses@.len() && 0 <= q < pools.len() && 0
                <= b < pools[q].addresses@.len() && (p != q || a != b) ==> #[trigger] check_position(
                pools,
                p,
                a,
            ) != #[trigger] check_position(pools, q, b),
        forall|k: int| 0 <= k < backend_count(pools) ==> #[trigger] place_has_backend(pools, k),
{
    assert forall|p: int, a: int, q: int, b: int|
        0 <= p < pools.len() && 0 <= a < pools[p].addresses@.len() && 0 <= q < pools.len() && 0 <= b
            < pools[q].addresses@.len() && (p != q || a != b) implies #[trigger] check_position(
        pools,
        p,
        a,
    ) != #[trigger] check_position(pools, q, b) by {
        if p < q {
            backend_count_grows(pools, p, q);
        } else if q < p {
            backend_count_grows(pools, q, p);
        }
    }
    assert forall|k: int| 0 <= k < backend_count(pools) implies #[trigger] place_has_backend(
        pools,
        k,
    ) by {
        assert(pools.take(pools.len() as int) =~= pools);
        place_is_of_a_backend(pools, pools.len() as int, k);
    }
}

/// Every place below the number of backends of the first `n` pools is that of
/// a backend of one of them.
proof fn place_is_of_a_backend(pools: Seq<BackendPool>, n: int, k: int)
    requires
        0 <= n <= pools.len(),
        0 <= k < backend_count(pools.take(n)),
    ensures
        exists|p: int, a: int|
            0 <= p < n && 0 <= a < pools[p].addresses@.len() && #[trigger] check_position(
                pools,
                p,
                a,
            ) == k,
    decreases n,
{
    assert(pools.take(n).drop_last() =~= pools.take(n - 1));
    if k < backend_count(pools.take(n - 1)) {
        place_is_of_a_backend(pools, n - 1, k);
    } else {
        let a = k - backend_count(pools.take(n - 1));
        assert(check_position(pools, n - 1, a) == k);
    }
}

} // verus!
