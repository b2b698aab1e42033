use origin_poller::failure::FailureReason;
use origin_poller::persistence::{
    fetch_origins, fetch_origins_with_most_recent_failure_metrics,
    fetch_origins_with_most_recent_success_metrics, insert_origin, Store, StoreError,
};
use origin_poller::poller::{
    Alert, AlertDecision, AlertThreshold, Poller, PollerConfiguration, ProbeOutcome,
    DEFAULT_COOLDOWN_MILLIS, DEFAULT_FAILURE_LIMIT, DEFAULT_WINDOW_MILLIS, POLL_INTERVAL_MILLIS,
    REQUEST_TIMEOUT_MILLIS,
};

const SNS_TOPIC: &str = "some-sns-topic";
const UNREACHABLE: &str = "https://mozilla.rust";
const START: i64 = 1_700_000_000_000;

struct Harness {
    store: Store,
    poller: Poller,
    sent: Vec<Alert>,
    next_uid: u128,
}

impl Harness {
    fn new(threshold: AlertThreshold) -> Self {
        let configuration = PollerConfiguration::new(threshold, String::from(SNS_TOPIC));
        Harness {
            store: Store::new(),
            poller: Poller::new(configuration),
            sent: Vec::new(),
            next_uid: 1_000,
        }
    }

    fn register(&mut self, uid: u128, uri: &str) {
        insert_origin(&mut self.store, uid, uri).unwrap();
    }

    /// One poll cycle at `now`: every origin gets `outcome`, due alerts are
    /// "sent" and recorded.
    fn uid(&mut self) -> u128 {
        self.next_uid += 1;
        self.next_uid
    }

    fn cycle(&mut self, outcome: ProbeOutcome, now: i64) {
        for origin in fetch_origins(&self.store) {
            let uid = self.uid();
            let decision = self
                .poller
                .record_probe(&mut self.store, origin.origin_uid, &origin.uri, outcome, uid, now, now)
                .unwrap();
            if let AlertDecision::Notify(alert) = decision {
                let uid = self.uid();
                self.poller.record_notification(&mut self.store, &alert, uid, now).unwrap();
                self.sent.push(alert);
            }
        }
    }

    fn latest_status(&self, uri: &str) -> Option<u16> {
        fetch_origins_with_most_recent_success_metrics(&self.store)
            .into_iter()
            .filter(|r| r.uri == uri)
            .map(|r| r.status)
            .next()
    }

    fn latest_failure(&self, uri: &str) -> Option<String> {
        fetch_origins_with_most_recent_failure_metrics(&self.store)
            .into_iter()
            .filter(|r| r.uri == uri)
            .map(|r| r.failure_reason)
            .next()
    }
}

fn response(status: u16) -> ProbeOutcome {
    ProbeOutcome::Response { status, latency_millis: 25 }
}

fn failing() -> ProbeOutcome {
    ProbeOutcome::Failure(FailureReason::BadRequest)
}

#[test]
fn can_query_all_origins() {
    let mut h = Harness::new(AlertThreshold::default());
    h.register(1, "http://example.test");
    h.cycle(response(200), START);
    assert_eq!(h.latest_status("http://example.test"), Some(200));
}

#[test]
fn can_record_client_failures() {
    let mut h = Harness::new(AlertThreshold::default());
    h.register(1, "http://example.test");
    h.cycle(response(200), START);
    h.cycle(response(404), START + 60_000);
    assert_eq!(h.latest_status("http://example.test"), Some(404));
}

#[test]
fn can_record_query_failures() {
    let mut h = Harness::new(AlertThreshold::default());
    h.register(1, UNREACHABLE);
    h.cycle(failing(), START);
    assert_eq!(h.latest_failure(UNREACHABLE).as_deref(), Some(FailureReason::BadRequest.as_str()));
    assert_eq!(h.latest_status(UNREACHABLE), None);
}

#[test]
fn can_route_alerts_to_clients() {
    let mut h = Harness::new(AlertThreshold::default());
    h.register(1, UNREACHABLE);
    for i in 0..3 {
        h.cycle(failing(), START + i);
    }
    let expected_message = format!("The failure rate of {UNREACHABLE} exceeds the SLA");
    assert_eq!(h.sent.len(), 1);
    assert_eq!(h.sent[0].subject, "Outage detected");
    assert_eq!(h.sent[0].message, expected_message);
    assert_eq!(h.sent[0].topic, SNS_TOPIC);
    assert_eq!(h.sent[0].origin_uid, 1);
}

#[test]
fn alerts_are_not_constantly_routed() {
    let mut h = Harness::new(AlertThreshold::default());
    h.register(1, UNREACHABLE);
    for i in 0..3 {
        h.cycle(failing(), START + i);
    }
    h.cycle(failing(), START + 3);
    h.cycle(failing(), START + 4);
    assert_eq!(h.sent.len(), 1);
}

#[test]
fn alerts_can_cooldown_after_firing() {
    let mut threshold = AlertThreshold::default();
    threshold.cooldown = 100;
    let mut h = Harness::new(threshold);
    h.register(1, UNREACHABLE);
    for i in 0..3 {
        h.cycle(failing(), START + i);
    }
    assert_eq!(h.sent.len(), 1);
    h.cycle(failing(), START + 2 + 100 + 1);
    assert_eq!(h.sent.len(), 2);
}

#[test]
fn no_alert_before_the_limit_is_reached() {
    let mut h = Harness::new(AlertThreshold::default());
    h.register(1, UNREACHABLE);
    h.cycle(failing(), START);
    h.cycle(failing(), START + 60_000);
    assert_eq!(h.sent.len(), 0);
    h.cycle(failing(), START + 120_000);
    assert_eq!(h.sent.len(), 1);
}

#[test]
fn failures_outside_the_window_do_not_count() {
    let mut h = Harness::new(AlertThreshold::default());
    h.register(1, UNREACHABLE);
    h.cycle(failing(), START);
    h.cycle(failing(), START + 200_000);
    // the first failure is now 300_001 ms old: outside the five-minute window
    h.cycle(failing(), START + 300_001);
    assert_eq!(h.sent.len(), 0);
    h.cycle(failing(), START + 360_000);
    assert_eq!(h.sent.len(), 1);
}

#[test]
fn failure_exactly_at_window_start_counts() {
    let mut h = Harness::new(AlertThreshold::default());
    h.register(1, UNREACHABLE);
    h.cycle(failing(), START);
    h.cycle(failing(), START + 1);
    h.cycle(failing(), START + 300_000);
    assert_eq!(h.sent.len(), 1);
}

#[test]
fn cooldown_boundary_is_not_recent() {
    let threshold = AlertThreshold::new(1, DEFAULT_WINDOW_MILLIS, 1_000);
    let mut h = Harness::new(threshold);
    h.register(1, UNREACHABLE);
    h.cycle(failing(), START);
    assert_eq!(h.sent.len(), 1);
    h.cycle(failing(), START + 999);
    assert_eq!(h.sent.len(), 1);
    // a notification created exactly `cooldown` ago no longer suppresses
    h.cycle(failing(), START + 1_000);
    assert_eq!(h.sent.len(), 2);
    h.cycle(failing(), START + 1_500);
    assert_eq!(h.sent.len(), 2);
}

#[test]
fn successes_never_raise_alerts() {
    let threshold = AlertThreshold::new(1, DEFAULT_WINDOW_MILLIS, DEFAULT_COOLDOWN_MILLIS);
    let mut h = Harness::new(threshold);
    h.register(1, "http://example.test");
    for i in 0..5 {
        h.cycle(response(500), START + i * 60_000);
    }
    assert_eq!(h.sent.len(), 0);
}

#[test]
fn origins_are_evaluated_independently() {
    let mut h = Harness::new(AlertThreshold::default());
    h.register(1, UNREACHABLE);
    h.register(2, "http://example.test");
    let poller = h.poller.clone();
    for i in 0..3 {
        let now = START + i * 60_000;
        let (u1, u2) = (h.uid(), h.uid());
        let d1 = poller.record_probe(&mut h.store, 1, UNREACHABLE, failing(), u1, now, now).unwrap();
        let d2 = poller
            .record_probe(&mut h.store, 2, "http://example.test", response(200), u2, now, now)
            .unwrap();
        assert!(matches!(d2, AlertDecision::BelowThreshold));
        if i < 2 {
            assert!(matches!(d1, AlertDecision::BelowThreshold));
        } else {
            assert!(matches!(d1, AlertDecision::Notify(_)));
        }
    }
}

#[test]
fn suppressed_while_cooling_down() {
    let mut h = Harness::new(AlertThreshold::default());
    h.register(1, UNREACHABLE);
    for i in 0..3 {
        h.cycle(failing(), START + i);
    }
    let d = h.poller.check_for_pending_notifications(&h.store, 1, UNREACHABLE, START + 10);
    assert!(matches!(d, AlertDecision::Suppressed));
    let later = START + DEFAULT_COOLDOWN_MILLIS + 2;
    let d = h.poller.check_for_pending_notifications(&h.store, 1, UNREACHABLE, later);
    // the failures have left the window by then
    assert!(matches!(d, AlertDecision::BelowThreshold));
}

#[test]
fn probe_of_unknown_origin_is_refused() {
    let h = Harness::new(AlertThreshold::default());
    let mut store = h.store;
    let r = h.poller.record_probe(&mut store, 9, UNREACHABLE, failing(), 1, START, START);
    assert!(matches!(r, Err(StoreError::UnknownOrigin)));
    assert!(fetch_origins_with_most_recent_failure_metrics(&store).is_empty());
}

#[test]
fn probe_with_a_taken_id_is_refused() {
    let mut h = Harness::new(AlertThreshold::default());
    h.register(1, UNREACHABLE);
    let poller = h.poller.clone();
    assert!(poller.record_probe(&mut h.store, 1, UNREACHABLE, failing(), 7, START, START).is_ok());
    let r = poller.record_probe(&mut h.store, 1, UNREACHABLE, failing(), 7, START + 1, START + 1);
    assert!(matches!(r, Err(StoreError::DuplicateId)));
    // the same id is free in the other table
    let r = poller.record_probe(&mut h.store, 1, UNREACHABLE, response(200), 7, START + 2, START + 2);
    assert!(r.is_ok());
    assert_eq!(fetch_origins_with_most_recent_failure_metrics(&h.store)[0].queried_at, START);
}

fn alert_for(uid: u128) -> Alert {
    Alert {
        origin_uid: uid,
        topic: String::from(SNS_TOPIC),
        subject: String::from("Outage detected"),
        message: String::from("m"),
    }
}

#[test]
fn notification_that_is_not_due_is_refused() {
    let mut h = Harness::new(AlertThreshold::default());
    h.register(1, UNREACHABLE);
    h.cycle(failing(), START);
    let poller = h.poller.clone();
    // one failure, the limit is three
    let r = poller.record_notification(&mut h.store, &alert_for(1), 50, START + 1);
    assert_eq!(r, Err(StoreError::NotDue));
    h.cycle(failing(), START + 1);
    h.cycle(failing(), START + 2);
    assert_eq!(h.sent.len(), 1);
    // notified just now: within the cooldown
    let r = poller.record_notification(&mut h.store, &alert_for(1), 51, START + 3);
    assert_eq!(r, Err(StoreError::NotDue));
    // unknown origins have no failures, so nothing is due for them
    let r = poller.record_notification(&mut h.store, &alert_for(9), 52, START + 3);
    assert_eq!(r, Err(StoreError::NotDue));
}

#[test]
fn due_notification_for_unknown_origin_is_refused() {
    // a limit of zero is always reached
    let threshold = AlertThreshold::new(0, DEFAULT_WINDOW_MILLIS, DEFAULT_COOLDOWN_MILLIS);
    let mut h = Harness::new(threshold);
    let poller = h.poller.clone();
    let r = poller.record_notification(&mut h.store, &alert_for(9), 1, START);
    assert_eq!(r, Err(StoreError::UnknownOrigin));
    h.register(1, UNREACHABLE);
    assert_eq!(poller.record_notification(&mut h.store, &alert_for(1), 1, START), Ok(()));
    let later = START + DEFAULT_COOLDOWN_MILLIS;
    let r = poller.record_notification(&mut h.store, &alert_for(1), 1, later);
    assert_eq!(r, Err(StoreError::DuplicateId));
    assert_eq!(poller.record_notification(&mut h.store, &alert_for(1), 2, later), Ok(()));
}

#[test]
fn default_threshold_values() {
    let t = AlertThreshold::default();
    assert_eq!(t.failure_limit, 3);
    assert_eq!(t.window_period, 5 * 60 * 1000);
    assert_eq!(t.cooldown, 60 * 60 * 1000);
    assert_eq!(DEFAULT_FAILURE_LIMIT, 3);
    assert_eq!(POLL_INTERVAL_MILLIS, 60_000);
    assert_eq!(REQUEST_TIMEOUT_MILLIS, 3_000);
    assert!(REQUEST_TIMEOUT_MILLIS < POLL_INTERVAL_MILLIS);
}

#[test]
fn configuration_keeps_topic_and_threshold() {
    let t = AlertThreshold::new(5, 10, 20);
    let c = PollerConfiguration::new(t, String::from("topic-a"));
    let p = Poller::new(c.clone());
    assert_eq!(p.configuration().topic, "topic-a");
    assert_eq!(p.configuration().alert_threshold, t);
    assert_eq!(c.alert_threshold.failure_limit, 5);
}
