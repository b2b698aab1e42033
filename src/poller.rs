//! The alert evaluator and the per-origin step of a poll cycle.
//!
//! A cycle probes every origin: the caller performs the HTTP request, hands
//! the outcome to [`Poller::record_probe`], which persists it and decides
//! whether an alert is due; the caller dispatches a due alert and records it
//! with [`Poller::record_notification`]. Whether an alert is due is derived
//! from the store alone, so no alerting state lives in memory.

use vstd::prelude::*;
use crate::failure::FailureReason;
use crate::persistence::{
    Store,
    StoreView,
    StoreError,
    cooled_down_spec,
    failure_rate_exceeded_spec,
    failures_in_window,
    failures_in_window_upto,
    NotificationView,
    QueryFailure,
    failure_rate_exceeded,
    insert_notification_row,
    insert_query_failure_row,
    insert_query_row,
    Notification,
    Query,
    latest_notification_older_than,
};

verus! {

/// Milliseconds between the starts of two poll cycles.
pub const POLL_INTERVAL_MILLIS: u64 = 60_000;

/// Milliseconds a probe may take before it counts as timed out.
pub const REQUEST_TIMEOUT_MILLIS: u64 = 3_000;

pub const DEFAULT_FAILURE_LIMIT: u16 = 3;

/// Five minutes.
pub const DEFAULT_WINDOW_MILLIS: i64 = 300_000;

/// One hour.
pub const DEFAULT_COOLDOWN_MILLIS: i64 = 3_600_000;

/// When failures of an origin warrant a notification.
#[derive(Copy, Clone, Debug, PartialEq, Eq, Structural)]
pub struct AlertThreshold {
    /// The number of failures that need to occur for a notification to be sent.
    pub failure_limit: u16,
    /// The window, in milliseconds, in which the failures must have occurred.
    pub window_period: i64,
    /// The minimum time, in milliseconds, between two notifications.
    pub cooldown: i64,
}

impl AlertThreshold {
    pub fn new(failure_limit: u16, window_period: i64, cooldown: i64) -> (r: AlertThreshold)
        ensures
            r == (AlertThreshold { failure_limit, window_period, cooldown }),
    {
        AlertThreshold { failure_limit, window_period, cooldown }
    }
}

impl Default for AlertThreshold {
    /// Three failures within five minutes, at most one notification an hour.
    fn default() -> (r: AlertThreshold)
        ensures
            r == (AlertThreshold {
                failure_limit: DEFAULT_FAILURE_LIMIT,
                window_period: DEFAULT_WINDOW_MILLIS,
                cooldown: DEFAULT_COOLDOWN_MILLIS,
            }),
    {
        AlertThreshold {
            failure_limit: DEFAULT_FAILURE_LIMIT,
            window_period: DEFAULT_WINDOW_MILLIS,
            cooldown: DEFAULT_COOLDOWN_MILLIS,
        }
    }
}

/// The process-wide settings of the poller.
#[derive(Debug)]
pub struct PollerConfiguration {
    pub alert_threshold: AlertThreshold,
    /// Where notifications are published.
    pub topic: String,
}

impl PollerConfiguration {
    pub fn new(alert_threshold: AlertThreshold, topic: String) -> (r: PollerConfiguration)
        ensures
            r.alert_threshold == alert_threshold,
            r.topic@ == topic@,
    {
        PollerConfiguration { alert_threshold, topic }
    }
}

impl Clone for PollerConfiguration {
    fn clone(&self) -> (r: Self)
        ensures
            r.alert_threshold == self.alert_threshold,
            r.topic@ == self.topic@,
    {
        PollerConfiguration { alert_threshold: self.alert_threshold, topic: self.topic.clone() }
    }
}

/// What one probe of an origin produced.
#[derive(Copy, Clone, Debug, PartialEq, Eq, Structural)]
pub enum ProbeOutcome {
    /// The origin answered; `latency_millis` is start to completion.
    Response { status: u16, latency_millis: i64 },
    /// The request did not complete as an HTTP response.
    Failure(FailureReason),
}

/// A notification that is due for an origin.
#[derive(Debug)]
pub struct Alert {
    pub origin_uid: u128,
    pub topic: String,
    pub subject: String,
    pub message: String,
}

/// The outcome of evaluating an origin's alert state.
#[derive(Debug)]
pub enum AlertDecision {
    /// The origin has not failed often enough within the window.
    BelowThreshold,
    /// The threshold is exceeded, but a notification went out within the
    /// cooldown.
    Suppressed,
    /// A notification is due.
    Notify(Alert),
}

pub enum AlertDecisionView {
    BelowThreshold,
    Suppressed,
    Notify { origin_uid: u128, topic: Seq<char>, subject: Seq<char>, message: Seq<char> },
}

impl View for AlertDecision {
    type V = AlertDecisionView;

    open spec fn view(&self) -> AlertDecisionView {
        match self {
            AlertDecision::BelowThreshold => AlertDecisionView::BelowThreshold,
            AlertDecision::Suppressed => AlertDecisionView::Suppressed,
            AlertDecision::Notify(a) => AlertDecisionView::Notify {
                origin_uid: a.origin_uid,
                topic: a.topic@,
                subject: a.subject@,
                message: a.message@,
            },
        }
    }
}

pub open spec fn alert_subject() -> Seq<char> {
    "Outage detected"@
}

pub open spec fn alert_message(uri: Seq<char>) -> Seq<char> {
    "The failure rate of "@ + uri + " exceeds the SLA"@
}

/// The alert state of an origin at `now`: the threshold is checked first,
/// the cooldown only once the threshold is exceeded.
pub open spec fn evaluate_spec(
    s: StoreView,
    threshold: AlertThreshold,
    topic: Seq<char>,
    origin_uid: u128,
    uri: Seq<char>,
    now: i64,
) -> AlertDecisionView {
    if !failure_rate_exceeded_spec(
        s,
        origin_uid,
        threshold.failure_limit,
        threshold.window_period,
        now,
    ) {
        AlertDecisionView::BelowThreshold
    } else if !cooled_down_spec(s, origin_uid, threshold.cooldown, now) {
        AlertDecisionView::Suppressed
    } else {
        AlertDecisionView::Notify {
            origin_uid,
            topic,
            subject: alert_subject(),
            message: alert_message(uri),
        }
    }
}

/// Whether a notification for the origin may be created at `at`: its
/// failures within the window reach the limit and it had no notification
/// within the cooldown.
pub open spec fn notification_due(
    s: StoreView,
    threshold: AlertThreshold,
    origin_uid: u128,
    at: i64,
) -> bool {
    failure_rate_exceeded_spec(
        s,
        origin_uid,
        threshold.failure_limit,
        threshold.window_period,
        at,
    ) && cooled_down_spec(s, origin_uid, threshold.cooldown, at)
}

/// Whether the identifier is taken in the table that the outcome goes to.
pub open spec fn record_uid_taken(s: StoreView, outcome: ProbeOutcome, uid: u128) -> bool {
    match outcome {
        ProbeOutcome::Response { .. } => s.has_query_uid(uid),
        ProbeOutcome::Failure(_) => s.has_failure_uid(uid),
    }
}

/// The store after one probe outcome of an origin is recorded under `uid`.
pub open spec fn recorded_spec(
    s: StoreView,
    origin_uid: u128,
    outcome: ProbeOutcome,
    started_at: i64,
    uid: u128,
) -> StoreView {
    match outcome {
        ProbeOutcome::Response { status, latency_millis } => StoreView {
            queries: s.queries.push(
                crate::persistence::Query {
                    query_uid: uid,
                    origin_uid,
                    status,
                    latency_millis,
                    queried_at: started_at,
                },
            ),
            ..s
        },
        ProbeOutcome::Failure(reason) => StoreView {
            failures: s.failures.push(
                crate::persistence::QueryFailure {
                    query_failure_uid: uid,
                    origin_uid,
                    failure_reason: reason,
                    queried_at: started_at,
                },
            ),
            ..s
        },
    }
}

/// Decides, from the store, what follows each probe of an origin.
#[derive(Debug)]
pub struct Poller {
    pub configuration: PollerConfiguration,
}

impl Clone for Poller {
    fn clone(&self) -> (r: Self)
        ensures
            r.configuration.alert_threshold == self.configuration.alert_threshold,
            r.configuration.topic@ == self.configuration.topic@,
    {
        Poller { configuration: self.configuration.clone() }
    }
}

impl Poller {
    pub fn new(configuration: PollerConfiguration) -> (r: Poller)
        ensures
            r.configuration.alert_threshold == configuration.alert_threshold,
            r.configuration.topic@ == configuration.topic@,
    {
        Poller { configuration }
    }

    pub fn configuration(&self) -> (r: &PollerConfiguration)
        ensures
            r == &self.configuration,
    {
        &self.configuration
    }

    /// Whether a notification is due for the origin at `now`.
    pub fn check_for_pending_notifications(
        &self,
        store: &Store,
        origin_uid: u128,
        uri: &str,
        now: i64,
    ) -> (r: AlertDecision)
        ensures
            r@ == evaluate_spec(
                store@,
                self.configuration.alert_threshold,
                self.configuration.topic@,
                origin_uid,
                uri@,
                now,
            ),
    {
        let threshold = self.configuration.alert_threshold;
        let exceeded = failure_rate_exceeded(
            store,
            origin_uid,
            threshold.failure_limit,
            threshold.window_period,
            now,
        );
        if !exceeded {
            return AlertDecision::BelowThreshold;
        }
        let cooled_down = latest_notification_older_than(store, origin_uid, threshold.cooldown, now);
        if !cooled_down {
            return AlertDecision::Suppressed;
        }
        let mut message = String::from_str("The failure rate of ");
        message.append(uri);
        message.append(" exceeds the SLA");
        AlertDecision::Notify(
            Alert {
                origin_uid,
                topic: self.configuration.topic.clone(),
                subject: String::from_str("Outage detected"),
                message,
            },
        )
    }

    /// Records the outcome of one probe of an origin, started at `started_at`,
    /// as a row with identifier `record_uid`, and then evaluates the origin's
    /// alert state at `now`.
    pub fn record_probe(
        &self,
        store: &mut Store,
        origin_uid: u128,
        uri: &str,
        outcome: ProbeOutcome,
        record_uid: u128,
        started_at: i64,
        now: i64,
    ) -> (r: Result<AlertDecision, StoreError>)
        ensures
            final(store)@.wf(),
            (r == Err::<AlertDecision, StoreError>(StoreError::UnknownOrigin))
                <==> !old(store)@.has_origin(origin_uid),
            (r == Err::<AlertDecision, StoreError>(StoreError::DuplicateId)) <==> (old(
                store,
            )@.has_origin(origin_uid) && record_uid_taken(old(store)@, outcome, record_uid)),
            r is Err ==> (r->Err_0 == StoreError::UnknownOrigin || r->Err_0
                == StoreError::DuplicateId) && final(store)@ == old(store)@,
            r is Ok ==> final(store)@ == recorded_spec(
                old(store)@,
                origin_uid,
                outcome,
                started_at,
                record_uid,
            ),
            r is Ok ==> r->Ok_0@ == evaluate_spec(
                final(store)@,
                self.configuration.alert_threshold,
                self.configuration.topic@,
                origin_uid,
                uri@,
                now,
            ),
    {
        let recorded = match outcome {
            ProbeOutcome::Response { status, latency_millis } => insert_query_row(
                store,
                Query {
                    query_uid: record_uid,
                    origin_uid,
                    status,
                    latency_millis,
                    queried_at: started_at,
                },
            ),
            ProbeOutcome::Failure(reason) => insert_query_failure_row(
                store,
                QueryFailure {
                    query_failure_uid: record_uid,
                    origin_uid,
                    failure_reason: reason,
                    queried_at: started_at,
                },
            ),
        };
        match recorded {
            Err(e) => Err(e),
            Ok(()) => Ok(self.check_for_pending_notifications(store, origin_uid, uri, now)),
        }
    }

    /// Records a notification that was dispatched at `created_at`, as a row
    /// with identifier `notification_uid`, provided it is due then: the
    /// origin failed often enough within the window and was not notified
    /// within the cooldown.
    pub fn record_notification(
        &self,
        store: &mut Store,
        alert: &Alert,
        notification_uid: u128,
        created_at: i64,
    ) -> (r: Result<(), StoreError>)
        ensures
            final(store)@.wf(),
            !notification_due(
                old(store)@,
                self.configuration.alert_threshold,
                alert.origin_uid,
                created_at,
            ) ==> r == Err::<(), StoreError>(StoreError::NotDue),
            notification_due(
                old(store)@,
                self.configuration.alert_threshold,
                alert.origin_uid,
                created_at,
            ) ==> ((r == Err::<(), StoreError>(StoreError::UnknownOrigin)) <==> !old(
                store,
            )@.has_origin(alert.origin_uid)) && ((r == Err::<(), StoreError>(
                StoreError::DuplicateId,
            )) <==> (old(store)@.has_origin(alert.origin_uid) && old(
                store,
            )@.has_notification_uid(notification_uid))),
            r is Err ==> final(store)@ == old(store)@,
            r is Ok ==> final(store)@ == (StoreView {
                notifications: old(store)@.notifications.push(
                    NotificationView {
                        notification_uid,
                        origin_uid: alert.origin_uid,
                        topic: alert.topic@,
                        subject: alert.subject@,
                        message: alert.message@,
                        created_at,
                    },
                ),
                ..old(store)@
            }),
    {
        let threshold = self.configuration.alert_threshold;
        let exceeded = failure_rate_exceeded(
            store,
            alert.origin_uid,
            threshold.failure_limit,
            threshold.window_period,
            created_at,
        );
        if !exceeded || !latest_notification_older_than(
            store,
            alert.origin_uid,
            threshold.cooldown,
            created_at,
        ) {
            return Err(StoreError::NotDue);
        }
        let row = Notification {
            notification_uid,
            origin_uid: alert.origin_uid,
            topic: alert.topic.clone(),
            subject: alert.subject.clone(),
            message: alert.message.clone(),
            created_at,
        };
        insert_notification_row(store, row)
    }
}

proof fn lemma_failures_in_window_push(
    fs: Seq<QueryFailure>,
    f: QueryFailure,
    uid: u128,
    start: int,
    end: int,
    n: int,
)
    requires
        0 <= n <= fs.len(),
    ensures
        failures_in_window_upto(fs.push(f), uid, start, end, n) == failures_in_window_upto(
            fs,
            uid,
            start,
            end,
            n,
        ),
    decreases n,
{
    if n > 0 {
        lemma_failures_in_window_push(fs, f, uid, start, end, n - 1);
        assert(fs.push(f)[n - 1] == fs[n - 1]);
    }
}

/// With the limit at `N`, a failed probe of an origin that started within
/// the window adds one to its failures in the window, and the evaluation that
/// follows calls for an alert exactly when that count reaches `N`: on the
/// cycle where it first gets there, and not before. The origin has had no
/// notification within the cooldown.
pub proof fn lemma_alert_exactly_at_limit(
    s: StoreView,
    threshold: AlertThreshold,
    topic: Seq<char>,
    origin_uid: u128,
    uri: Seq<char>,
    reason: FailureReason,
    started_at: i64,
    uid: u128,
    now: i64,
)
    requires
        now - threshold.window_period <= started_at <= now,
        cooled_down_spec(s, origin_uid, threshold.cooldown, now),
    ensures
        ({
            let t = recorded_spec(s, origin_uid, ProbeOutcome::Failure(reason), started_at, uid);
            let before = failures_in_window(
                s.failures,
                origin_uid,
                now - threshold.window_period,
                now as int,
            );
            &&& failures_in_window(t.failures, origin_uid, now - threshold.window_period, now as int)
                == before + 1
            &&& before + 1 >= threshold.failure_limit ==> evaluate_spec(
                t,
                threshold,
                topic,
                origin_uid,
                uri,
                now,
            ) == (AlertDecisionView::Notify {
                origin_uid,
                topic,
                subject: alert_subject(),
                message: alert_message(uri),
            })
            &&& before + 1 < threshold.failure_limit ==> evaluate_spec(
                t,
                threshold,
                topic,
                origin_uid,
                uri,
                now,
            ) == AlertDecisionView::BelowThreshold
        }),
{
    let f = QueryFailure {
        query_failure_uid: uid,
        origin_uid,
        failure_reason: reason,
        queried_at: started_at,
    };
    let t = recorded_spec(s, origin_uid, ProbeOutcome::Failure(reason), started_at, uid);
    let n = s.failures.len() as int;
    lemma_failures_in_window_push(
        s.failures,
        f,
        origin_uid,
        now - threshold.window_period,
        now as int,
        n,
    );
    assert(t.failures == s.failures.push(f));
    assert(t.failures[n] == f);
}

/// Once a notification for an origin is recorded at `created_at`, no
/// evaluation before `created_at + cooldown` calls for another. From then
/// on, if no other notification of that origin is later, the next
/// evaluation that finds the threshold exceeded calls for exactly one alert.
pub proof fn lemma_cooldown_suppresses_until_elapsed(
    s: StoreView,
    threshold: AlertThreshold,
    topic: Seq<char>,
    uri: Seq<char>,
    n: NotificationView,
    now: i64,
)
    ensures
        ({
            let t = StoreView { notifications: s.notifications.push(n), ..s };
            let d = evaluate_spec(t, threshold, topic, n.origin_uid, uri, now);
            &&& now < n.created_at + threshold.cooldown ==> !(d is Notify)
            &&& (forall|j: int|
                0 <= j < s.notifications.len() && (#[trigger] s.notifications[j]).origin_uid
                    == n.origin_uid ==> s.notifications[j].created_at <= n.created_at) && now
                >= n.created_at + threshold.cooldown && failure_rate_exceeded_spec(
                t,
                n.origin_uid,
                threshold.failure_limit,
                threshold.window_period,
                now,
            ) ==> d == (AlertDecisionView::Notify {
                origin_uid: n.origin_uid,
                topic,
                subject: alert_subject(),
                message: alert_message(uri),
            })
        }),
{
    let t = StoreView { notifications: s.notifications.push(n), ..s };
    let last = s.notifications.len() as int;
    assert(t.notifications[last] == n);
    assert forall|j: int| 0 <= j < s.notifications.len() implies #[trigger] t.notifications[j]
        == s.notifications[j] by {}
}

proof fn lemma_failures_in_window_prefix(
    a: Seq<QueryFailure>,
    b: Seq<QueryFailure>,
    uid: u128,
    start: int,
    end: int,
    n: int,
)
    requires
        0 <= n <= a.len(),
    ensures
        failures_in_window_upto(a + b, uid, start, end, n) == failures_in_window_upto(
            a,
            uid,
            start,
            end,
            n,
        ),
    decreases n,
{
    if n > 0 {
        lemma_failures_in_window_prefix(a, b, uid, start, end, n - 1);
        assert((a + b)[n - 1] == a[n - 1]);
    }
}

proof fn lemma_failures_in_window_concat(
    a: Seq<QueryFailure>,
    b: Seq<QueryFailure>,
    uid: u128,
    start: int,
    end: int,
    j: int,
)
    requires
        0 <= j <= b.len(),
    ensures
        failures_in_window_upto(a + b, uid, start, end, a.len() + j) == failures_in_window(
            a,
            uid,
            start,
            end,
        ) + failures_in_window_upto(b, uid, start, end, j),
    decreases j,
{
    if j == 0 {
        lemma_failures_in_window_prefix(a, b, uid, start, end, a.len() as int);
    } else {
        lemma_failures_in_window_concat(a, b, uid, start, end, j - 1);
        assert((a + b)[a.len() + j - 1] == b[j - 1]);
    }
}

proof fn lemma_failures_in_window_none(fs: Seq<QueryFailure>, uid: u128, start: int, end: int, n: int)
    requires
        0 <= n <= fs.len(),
        forall|i: int| 0 <= i < fs.len() ==> (#[trigger] fs[i]).origin_uid != uid,
    ensures
        failures_in_window_upto(fs, uid, start, end, n) == 0,
    decreases n,
{
    if n > 0 {
        lemma_failures_in_window_none(fs, uid, start, end, n - 1);
    }
}

proof fn lemma_failures_in_window_all(fs: Seq<QueryFailure>, uid: u128, start: int, end: int, n: int)
    requires
        0 <= n <= fs.len(),
        forall|i: int|
            0 <= i < n ==> (#[trigger] fs[i]).origin_uid == uid && start <= fs[i].queried_at <= end,
    ensures
        failures_in_window_upto(fs, uid, start, end, n) == n,
    decreases n,
{
    if n > 0 {
        lemma_failures_in_window_all(fs, uid, start, end, n - 1);
    }
}

/// The store after failures `fs` are recorded, one per cycle, in order.
pub open spec fn with_failures(s: StoreView, fs: Seq<QueryFailure>) -> StoreView {
    StoreView { failures: s.failures + fs, ..s }
}

/// With the limit at `N >= 1`, an origin that had no failure and no
/// notification fails on `N` consecutive cycles: the failure of cycle `k` is
/// recorded at or before that cycle's evaluation time `nows[k]`, the times do
/// not go back, and every failure lies within the window of the last cycle.
/// Each cycle appends exactly the row that `record_probe` appends for a
/// failure. Then cycles `1` to `N - 1` call for no alert, and cycle `N` calls
/// for exactly one.
pub proof fn lemma_alert_on_nth_failing_cycle(
    s: StoreView,
    threshold: AlertThreshold,
    topic: Seq<char>,
    origin_uid: u128,
    uri: Seq<char>,
    fs: Seq<QueryFailure>,
    nows: Seq<i64>,
)
    requires
        threshold.failure_limit >= 1,
        fs.len() == threshold.failure_limit,
        nows.len() == fs.len(),
        forall|i: int| 0 <= i < s.failures.len() ==> (#[trigger] s.failures[i]).origin_uid != origin_uid,
        forall|i: int|
            0 <= i < s.notifications.len() ==> (#[trigger] s.notifications[i]).origin_uid != origin_uid,
        forall|i: int|
            0 <= i < fs.len() ==> (#[trigger] fs[i]).origin_uid == origin_uid && fs[i].queried_at
                <= nows[i] && nows[fs.len() - 1] - threshold.window_period <= fs[i].queried_at,
        forall|i: int, j: int| 0 <= i <= j < nows.len() ==> #[trigger] nows[i] <= #[trigger] nows[j],
    ensures
        forall|k: int|
            0 <= k < fs.len() ==> with_failures(s, #[trigger] fs.take(k + 1)) == recorded_spec(
                with_failures(s, fs.take(k)),
                origin_uid,
                ProbeOutcome::Failure(fs[k].failure_reason),
                fs[k].queried_at,
                fs[k].query_failure_uid,
            ),
        forall|k: int|
            0 <= k < fs.len() - 1 ==> evaluate_spec(
                with_failures(s, #[trigger] fs.take(k + 1)),
                threshold,
                topic,
                origin_uid,
                uri,
                nows[k],
            ) == AlertDecisionView::BelowThreshold,
        evaluate_spec(
            with_failures(s, fs),
            threshold,
            topic,
            origin_uid,
            uri,
            nows[fs.len() - 1],
        ) == (AlertDecisionView::Notify {
            origin_uid,
            topic,
            subject: alert_subject(),
            message: alert_message(uri),
        }),
{
    let n = fs.len() as int;
    assert forall|k: int| 0 <= k < n implies with_failures(s, #[trigger] fs.take(k + 1))
        == recorded_spec(
        with_failures(s, fs.take(k)),
        origin_uid,
        ProbeOutcome::Failure(fs[k].failure_reason),
        fs[k].queried_at,
        fs[k].query_failure_uid,
    ) by {
        assert(fs[k] == (QueryFailure {
            query_failure_uid: fs[k].query_failure_uid,
            origin_uid,
            failure_reason: fs[k].failure_reason,
            queried_at: fs[k].queried_at,
        }));
        assert(s.failures + fs.take(k + 1) =~= (s.failures + fs.take(k)).push(fs[k]));
    }
    assert forall|k: int| 0 <= k < n implies {
        let t = with_failures(s, #[trigger] fs.take(k + 1));
        &&& failures_in_window(t.failures, origin_uid, nows[k] - threshold.window_period, nows[k] as int)
            == k + 1
        &&& cooled_down_spec(t, origin_uid, threshold.cooldown, nows[k])
    } by {
        let pre = fs.take(k + 1);
        let start = nows[k] - threshold.window_period;
        let end = nows[k] as int;
        lemma_failures_in_window_concat(s.failures, pre, origin_uid, start, end, k + 1);
        lemma_failures_in_window_none(s.failures, origin_uid, start, end, s.failures.len() as int);
        assert forall|i: int| 0 <= i < k + 1 implies (#[trigger] pre[i]).origin_uid == origin_uid
            && start <= pre[i].queried_at <= end by {
            assert(pre[i] == fs[i]);
            assert(nows[i] <= nows[k]);
            assert(nows[k] <= nows[n - 1]);
        }
        lemma_failures_in_window_all(pre, origin_uid, start, end, k + 1);
    }
    assert(fs.take(n) =~= fs);
    assert(fs.take(n - 1 + 1) == fs);
}

} // verus!
