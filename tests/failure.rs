use origin_poller::failure::{FailureReason, TransportError};

fn error(timeout: bool, redirect: bool, request: bool, connect: bool, body: bool) -> TransportError {
    TransportError { timeout, redirect, request, connect, body }
}

#[test]
fn names_are_stable() {
    assert_eq!(FailureReason::RequestTimeout.as_str(), "RequestTimeout");
    assert_eq!(FailureReason::Redirection.as_str(), "Redirection");
    assert_eq!(FailureReason::BadRequest.as_str(), "BadRequest");
    assert_eq!(FailureReason::ConnectionFailure.as_str(), "ConnectionFailure");
    assert_eq!(FailureReason::InvalidBody.as_str(), "InvalidBody");
    assert_eq!(FailureReason::Unknown.as_str(), "Unknown");
}

#[test]
fn each_fact_alone_gives_its_reason() {
    assert_eq!(FailureReason::classify(&error(true, false, false, false, false)), FailureReason::RequestTimeout);
    assert_eq!(FailureReason::classify(&error(false, true, false, false, false)), FailureReason::Redirection);
    assert_eq!(FailureReason::classify(&error(false, false, true, false, false)), FailureReason::BadRequest);
    assert_eq!(FailureReason::classify(&error(false, false, false, true, false)), FailureReason::ConnectionFailure);
    assert_eq!(FailureReason::classify(&error(false, false, false, false, true)), FailureReason::InvalidBody);
    assert_eq!(FailureReason::classify(&error(false, false, false, false, false)), FailureReason::Unknown);
}

#[test]
fn first_matching_fact_wins() {
    assert_eq!(FailureReason::classify(&error(true, true, true, true, true)), FailureReason::RequestTimeout);
    assert_eq!(FailureReason::classify(&error(false, true, true, true, true)), FailureReason::Redirection);
    assert_eq!(FailureReason::classify(&error(false, false, true, true, true)), FailureReason::BadRequest);
    assert_eq!(FailureReason::classify(&error(false, false, false, true, true)), FailureReason::ConnectionFailure);
    // a timeout during connection is a timeout
    assert_eq!(FailureReason::classify(&error(true, false, false, true, false)), FailureReason::RequestTimeout);
}

#[test]
fn every_combination_has_exactly_one_reason() {
    for bits in 0u8..32 {
        let e = error(bits & 1 != 0, bits & 2 != 0, bits & 4 != 0, bits & 8 != 0, bits & 16 != 0);
        let r = FailureReason::classify(&e);
        assert_eq!(r, FailureReason::from(e));
        assert_eq!(r == FailureReason::Unknown, bits == 0);
    }
}

#[test]
fn builder_error_is_read_from_the_client() {
    // an unparsable URL fails while the request is built, before any I/O
    let e = reqwest::Client::new().get("not a url").build().unwrap_err();
    let facts = TransportError::from_error(&e);
    assert_eq!(facts, error(false, false, false, false, false));
    assert_eq!(FailureReason::from(e), FailureReason::Unknown);
}

#[test]
fn refused_connection_is_a_bad_request() {
    let runtime = tokio::runtime::Builder::new_current_thread().enable_all().build().unwrap();
    let e = runtime.block_on(async {
        reqwest::Client::new()
            .get("http://127.0.0.1:9/")
            .timeout(std::time::Duration::from_secs(3))
            .send()
            .await
            .unwrap_err()
    });
    let facts = TransportError::from_error(&e);
    assert!(facts.request);
    assert!(facts.connect);
    assert!(!facts.timeout);
    // sending failed before a response: the request fact wins over connect
    assert_eq!(FailureReason::from(e), FailureReason::BadRequest);
}

#[test]
fn names_read_back() {
    let all = [
        FailureReason::RequestTimeout,
        FailureReason::Redirection,
        FailureReason::BadRequest,
        FailureReason::ConnectionFailure,
        FailureReason::InvalidBody,
        FailureReason::Unknown,
    ];
    for r in all {
        assert_eq!(FailureReason::from_name(r.as_str()), Some(r));
    }
    assert_eq!(FailureReason::from_name("unknown"), None);
    assert_eq!(FailureReason::from_name(""), None);
}
