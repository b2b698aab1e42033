//! Classification of transport errors into a closed set of failure reasons.

use vstd::prelude::*;

verus! {

#[verifier::external_type_specification]
#[verifier::external_body]
pub struct ExReqwestError(reqwest::Error);

/// Whether a client error is a timeout; it depends on the error alone.
pub uninterp spec fn timeout_of(e: reqwest::Error) -> bool;

/// Whether a client error comes from the redirect policy.
pub uninterp spec fn redirect_of(e: reqwest::Error) -> bool;

/// Whether a client error arose while sending the request.
pub uninterp spec fn request_of(e: reqwest::Error) -> bool;

/// Whether a client error arose while connecting.
pub uninterp spec fn connect_of(e: reqwest::Error) -> bool;

/// Whether a client error arose while reading the body.
pub uninterp spec fn body_of(e: reqwest::Error) -> bool;

/// Relies on `reqwest::Error::is_timeout`: whether the error, or one of its
/// sources, is a timeout, read from the error value alone.
pub assume_specification[ reqwest::Error::is_timeout ](e: &reqwest::Error) -> (r: bool)
    ensures
        r == timeout_of(*e),
;

/// Relies on `reqwest::Error::is_redirect`: whether the error's kind is the
/// redirect kind.
pub assume_specification[ reqwest::Error::is_redirect ](e: &reqwest::Error) -> (r: bool)
    ensures
        r == redirect_of(*e),
;

/// Relies on `reqwest::Error::is_request`: whether the error's kind is the
/// request kind.
pub assume_specification[ reqwest::Error::is_request ](e: &reqwest::Error) -> (r: bool)
    ensures
        r == request_of(*e),
;

/// Relies on `reqwest::Error::is_connect`: whether one of the error's sources
/// is a connection error, read from the error value alone.
pub assume_specification[ reqwest::Error::is_connect ](e: &reqwest::Error) -> (r: bool)
    ensures
        r == connect_of(*e),
;

/// Relies on `reqwest::Error::is_body`: whether the error's kind is the body
/// kind.
pub assume_specification[ reqwest::Error::is_body ](e: &reqwest::Error) -> (r: bool)
    ensures
        r == body_of(*e),
;

/// Why a probe did not complete as an HTTP response.
#[derive(Copy, Clone, Debug, PartialEq, Eq, Structural)]
pub enum FailureReason {
    RequestTimeout,
    Redirection,
    BadRequest,
    ConnectionFailure,
    InvalidBody,
    Unknown,
}

/// The facts about a failed HTTP attempt that decide its failure reason.
#[derive(Copy, Clone, Debug, PartialEq, Eq, Structural)]
pub struct TransportError {
    /// The timeout elapsed before a response arrived.
    pub timeout: bool,
    /// Too many redirects, or the redirect policy was violated.
    pub redirect: bool,
    /// The outgoing request was malformed or could not be sent.
    pub request: bool,
    /// The connection could not be established.
    pub connect: bool,
    /// The response body could not be read or decoded.
    pub body: bool,
}

impl TransportError {
    /// Reads the classification facts out of an HTTP client error.
    pub fn from_error(error: &reqwest::Error) -> (r: TransportError)
        ensures
            r == transport_facts(*error),
    {
        TransportError {
            timeout: error.is_timeout(),
            redirect: error.is_redirect(),
            request: error.is_request(),
            connect: error.is_connect(),
            body: error.is_body(),
        }
    }
}

/// The classification facts of an HTTP client error.
pub open spec fn transport_facts(e: reqwest::Error) -> TransportError {
    TransportError {
        timeout: timeout_of(e),
        redirect: redirect_of(e),
        request: request_of(e),
        connect: connect_of(e),
        body: body_of(e),
    }
}

/// The stable name under which a failure reason is persisted.
pub open spec fn reason_name(r: FailureReason) -> Seq<char> {
    match r {
        FailureReason::RequestTimeout => "RequestTimeout"@,
        FailureReason::Redirection => "Redirection"@,
        FailureReason::BadRequest => "BadRequest"@,
        FailureReason::ConnectionFailure => "ConnectionFailure"@,
        FailureReason::InvalidBody => "InvalidBody"@,
        FailureReason::Unknown => "Unknown"@,
    }
}

/// The failure reason of a transport error: the first matching fact wins, in
/// the order timeout, redirect, request, connect, body.
pub open spec fn classify_spec(e: TransportError) -> FailureReason {
    if e.timeout {
        FailureReason::RequestTimeout
    } else if e.redirect {
        FailureReason::Redirection
    } else if e.request {
        FailureReason::BadRequest
    } else if e.connect {
        FailureReason::ConnectionFailure
    } else if e.body {
        FailureReason::InvalidBody
    } else {
        FailureReason::Unknown
    }
}

impl FailureReason {
    pub fn as_str(&self) -> (r: &'static str)
        ensures
            r@ == reason_name(*self),
    {
        match self {
            Self::RequestTimeout => "RequestTimeout",
            Self::Redirection => "Redirection",
            Self::BadRequest => "BadRequest",
            Self::ConnectionFailure => "ConnectionFailure",
            Self::InvalidBody => "InvalidBody",
            Self::Unknown => "Unknown",
        }
    }

    /// The failure reason persisted under `name`, if any.
    pub fn from_name(name: &str) -> (r: Option<FailureReason>)
        ensures
            r matches Some(x) ==> reason_name(x) == name@,
            r is None ==> forall|x: FailureReason| reason_name(x) != name@,
    {
        let name = String::from_str(name);
        if name == String::from_str("RequestTimeout") {
            Some(Self::RequestTimeout)
        } else if name == String::from_str("Redirection") {
            Some(Self::Redirection)
        } else if name == String::from_str("BadRequest") {
            Some(Self::BadRequest)
        } else if name == String::from_str("ConnectionFailure") {
            Some(Self::ConnectionFailure)
        } else if name == String::from_str("InvalidBody") {
            Some(Self::InvalidBody)
        } else if name == String::from_str("Unknown") {
            Some(Self::Unknown)
        } else {
            None
        }
    }

    /// Classifies a transport error into exactly one failure reason.
    pub fn classify(error: &TransportError) -> (r: FailureReason)
        ensures
            r == classify_spec(*error),
    {
        if error.timeout {
            Self::RequestTimeout
        } else if error.redirect {
            Self::Redirection
        } else if error.request {
            Self::BadRequest
        } else if error.connect {
            Self::ConnectionFailure
        } else if error.body {
            Self::InvalidBody
        } else {
            Self::Unknown
        }
    }
}

/// Every transport error maps to exactly one failure reason: the first fact
/// that holds, in the order timeout, redirect, request, connect, body; an
/// error for which none holds maps to `Unknown`.
pub proof fn lemma_classifier_total(e: TransportError)
    ensures
        (classify_spec(e) == FailureReason::RequestTimeout) == e.timeout,
        (classify_spec(e) == FailureReason::Redirection) == (!e.timeout && e.redirect),
        (classify_spec(e) == FailureReason::BadRequest) == (!e.timeout && !e.redirect && e.request),
        (classify_spec(e) == FailureReason::ConnectionFailure) == (!e.timeout && !e.redirect
            && !e.request && e.connect),
        (classify_spec(e) == FailureReason::InvalidBody) == (!e.timeout && !e.redirect
            && !e.request && !e.connect && e.body),
        (classify_spec(e) == FailureReason::Unknown) == !(e.timeout || e.redirect || e.request
            || e.connect || e.body),
{
}

impl From<TransportError> for FailureReason {
    fn from(error: TransportError) -> (r: FailureReason) {
        FailureReason::classify(&error)
    }
}

impl vstd::std_specs::convert::FromSpecImpl<TransportError> for FailureReason {
    open spec fn obeys_from_spec() -> bool {
        true
    }

    open spec fn from_spec(error: TransportError) -> FailureReason {
        classify_spec(error)
    }
}

/// Classifies an HTTP client error by its facts.
impl From<reqwest::Error> for FailureReason {
    fn from(error: reqwest::Error) -> (r: FailureReason)
        ensures
            r == classify_spec(transport_facts(error)),
    {
        FailureReason::classify(&TransportError::from_error(&error))
    }
}

impl vstd::std_specs::convert::FromSpecImpl<reqwest::Error> for FailureReason {
    open spec fn obeys_from_spec() -> bool {
        true
    }

    open spec fn from_spec(error: reqwest::Error) -> FailureReason {
        classify_spec(transport_facts(error))
    }
}

} // verus!
