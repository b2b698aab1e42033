//! The store of origins, probe outcomes and dispatched notifications, with the
//! aggregate queries that the alert evaluator and the dashboard rely on.
//!
//! Every table is append-only. Times are milliseconds since the Unix epoch and
//! durations are milliseconds.

use vstd::prelude::*;
use crate::failure::{FailureReason, reason_name};

verus! {

/// Relies on `uuid::Uuid::new_v4`: a random identifier, read as its 128 bits.
#[verifier::external_body]
fn new_uid() -> (r: u128) {
    uuid::Uuid::new_v4().as_u128()
}

/// A monitored HTTP endpoint.
#[derive(Debug)]
pub struct Origin {
    pub origin_uid: u128,
    pub uri: String,
}

pub struct OriginView {
    pub origin_uid: u128,
    pub uri: Seq<char>,
}

impl View for Origin {
    type V = OriginView;

    open spec fn view(&self) -> OriginView {
        OriginView { origin_uid: self.origin_uid, uri: self.uri@ }
    }
}

impl Clone for Origin {
    fn clone(&self) -> (r: Self)
        ensures
            r@ == self@,
    {
        Origin { origin_uid: self.origin_uid, uri: self.uri.clone() }
    }
}

/// A probe that completed as an HTTP response.
#[derive(Copy, Clone, Debug, PartialEq, Eq, Structural)]
pub struct Query {
    pub query_uid: u128,
    pub origin_uid: u128,
    pub status: u16,
    pub latency_millis: i64,
    pub queried_at: i64,
}

/// A probe that did not complete as an HTTP response.
#[derive(Copy, Clone, Debug, PartialEq, Eq, Structural)]
pub struct QueryFailure {
    pub query_failure_uid: u128,
    pub origin_uid: u128,
    pub failure_reason: FailureReason,
    pub queried_at: i64,
}

/// An alert that was dispatched for an origin.
#[derive(Debug)]
pub struct Notification {
    pub notification_uid: u128,
    pub origin_uid: u128,
    pub topic: String,
    pub subject: String,
    pub message: String,
    pub created_at: i64,
}

pub struct NotificationView {
    pub notification_uid: u128,
    pub origin_uid: u128,
    pub topic: Seq<char>,
    pub subject: Seq<char>,
    pub message: Seq<char>,
    pub created_at: i64,
}

impl View for Notification {
    type V = NotificationView;

    open spec fn view(&self) -> NotificationView {
        NotificationView {
            notification_uid: self.notification_uid,
            origin_uid: self.origin_uid,
            topic: self.topic@,
            subject: self.subject@,
            message: self.message@,
            created_at: self.created_at,
        }
    }
}

/// Why a write to the store was refused.
#[derive(Copy, Clone, Debug, PartialEq, Eq, Structural)]
pub enum StoreError {
    /// An origin with this identifier is already registered.
    DuplicateOrigin,
    /// An origin with this URI is already registered.
    DuplicateUri,
    /// No origin with this identifier is registered.
    UnknownOrigin,
    /// The identifier drawn for a new record is already taken in its table.
    DuplicateId,
    /// The notification is not due: the origin has not failed often enough
    /// within the window, or was notified within the cooldown.
    NotDue,
}

/// The four append-only tables.
pub struct Store {
    origins: Vec<Origin>,
    queries: Vec<Query>,
    failures: Vec<QueryFailure>,
    notifications: Vec<Notification>,
}

pub struct StoreView {
    pub origins: Seq<OriginView>,
    pub queries: Seq<Query>,
    pub failures: Seq<QueryFailure>,
    pub notifications: Seq<NotificationView>,
}

impl View for Store {
    type V = StoreView;

    closed spec fn view(&self) -> StoreView {
        StoreView {
            origins: self.origins@.map_values(|o: Origin| o@),
            queries: self.queries@,
            failures: self.failures@,
            notifications: self.notifications@.map_values(|n: Notification| n@),
        }
    }
}

impl StoreView {
    pub open spec fn has_origin(self, uid: u128) -> bool {
        exists|i: int| 0 <= i < self.origins.len() && #[trigger] self.origins[i].origin_uid == uid
    }

    pub open spec fn has_uri(self, uri: Seq<char>) -> bool {
        exists|i: int| 0 <= i < self.origins.len() && #[trigger] self.origins[i].uri == uri
    }

    pub open spec fn has_query_uid(self, uid: u128) -> bool {
        exists|i: int| 0 <= i < self.queries.len() && #[trigger] self.queries[i].query_uid == uid
    }

    pub open spec fn has_failure_uid(self, uid: u128) -> bool {
        exists|i: int|
            0 <= i < self.failures.len() && #[trigger] self.failures[i].query_failure_uid == uid
    }

    pub open spec fn has_notification_uid(self, uid: u128) -> bool {
        exists|i: int|
            0 <= i < self.notifications.len() && #[trigger] self.notifications[i].notification_uid
                == uid
    }

    /// Origin identifiers and URIs are unique, every record has an
    /// identifier unique in its table, and every record refers to a
    /// registered origin.
    pub open spec fn wf(self) -> bool {
        &&& forall|i: int, j: int|
            0 <= i < j < self.origins.len() ==> #[trigger] self.origins[i].origin_uid
                != #[trigger] self.origins[j].origin_uid
        &&& forall|i: int, j: int|
            0 <= i < j < self.origins.len() ==> #[trigger] self.origins[i].uri
                != #[trigger] self.origins[j].uri
        &&& forall|i: int, j: int|
            0 <= i < j < self.queries.len() ==> #[trigger] self.queries[i].query_uid
                != #[trigger] self.queries[j].query_uid
        &&& forall|i: int, j: int|
            0 <= i < j < self.failures.len() ==> #[trigger] self.failures[i].query_failure_uid
                != #[trigger] self.failures[j].query_failure_uid
        &&& forall|i: int, j: int|
            0 <= i < j < self.notifications.len() ==> #[trigger] self.notifications[i].notification_uid
                != #[trigger] self.notifications[j].notification_uid
        &&& forall|i: int|
            0 <= i < self.queries.len() ==> self.has_origin(#[trigger] self.queries[i].origin_uid)
        &&& forall|i: int|
            0 <= i < self.failures.len() ==> self.has_origin(#[trigger] self.failures[i].origin_uid)
        &&& forall|i: int|
            0 <= i < self.notifications.len() ==> self.has_origin(
                #[trigger] self.notifications[i].origin_uid,
            )
    }
}

proof fn lemma_push_origin_wf(s: StoreView, o: OriginView)
    requires
        s.wf(),
        !s.has_origin(o.origin_uid),
        !s.has_uri(o.uri),
    ensures
        (StoreView { origins: s.origins.push(o), ..s }).wf(),
        (StoreView { origins: s.origins.push(o), ..s }).has_origin(o.origin_uid),
{
    let t = StoreView { origins: s.origins.push(o), ..s };
    let n = s.origins.len() as int;
    assert(t.origins[n] == o);
    assert forall|u: u128| s.has_origin(u) implies t.has_origin(u) by {
        let i = choose|i: int| 0 <= i < s.origins.len() && s.origins[i].origin_uid == u;
        assert(t.origins[i] == s.origins[i]);
    }
    assert forall|i: int, j: int| 0 <= i < j < t.origins.len() implies #[trigger] t.origins[i].origin_uid
        != #[trigger] t.origins[j].origin_uid && t.origins[i].uri != t.origins[j].uri by {
        assert(t.origins[i] == s.origins[i]);
        if j < n {
            assert(t.origins[j] == s.origins[j]);
        }
    }
}

proof fn lemma_push_query_wf(s: StoreView, q: Query)
    requires
        s.wf(),
        s.has_origin(q.origin_uid),
        !s.has_query_uid(q.query_uid),
    ensures
        (StoreView { queries: s.queries.push(q), ..s }).wf(),
{
    let t = StoreView { queries: s.queries.push(q), ..s };
    let n = s.queries.len() as int;
    assert(t.queries[n] == q);
    assert forall|i: int, j: int| 0 <= i < j < t.queries.len() implies #[trigger] t.queries[i].query_uid
        != #[trigger] t.queries[j].query_uid by {
        assert(t.queries[i] == s.queries[i]);
        if j < n {
            assert(t.queries[j] == s.queries[j]);
        }
    }
    assert forall|i: int| 0 <= i < t.queries.len() implies t.has_origin(
        #[trigger] t.queries[i].origin_uid,
    ) by {
        let u = t.queries[i].origin_uid;
        if i < n {
            assert(t.queries[i] == s.queries[i]);
            assert(s.has_origin(s.queries[i].origin_uid));
        }
        assert(s.has_origin(u));
        let k = choose|k: int| 0 <= k < s.origins.len() && s.origins[k].origin_uid == u;
        assert(t.origins[k].origin_uid == u);
    }
}

proof fn lemma_push_failure_wf(s: StoreView, f: QueryFailure)
    requires
        s.wf(),
        s.has_origin(f.origin_uid),
        !s.has_failure_uid(f.query_failure_uid),
    ensures
        (StoreView { failures: s.failures.push(f), ..s }).wf(),
{
    let t = StoreView { failures: s.failures.push(f), ..s };
    let n = s.failures.len() as int;
    assert(t.failures[n] == f);
    assert forall|i: int, j: int| 0 <= i < j < t.failures.len() implies #[trigger] t.failures[i].query_failure_uid
        != #[trigger] t.failures[j].query_failure_uid by {
        assert(t.failures[i] == s.failures[i]);
        if j < n {
            assert(t.failures[j] == s.failures[j]);
        }
    }
    assert forall|i: int| 0 <= i < t.failures.len() implies t.has_origin(
        #[trigger] t.failures[i].origin_uid,
    ) by {
        let u = t.failures[i].origin_uid;
        if i < n {
            assert(t.failures[i] == s.failures[i]);
            assert(s.has_origin(s.failures[i].origin_uid));
        }
        assert(s.has_origin(u));
        let k = choose|k: int| 0 <= k < s.origins.len() && s.origins[k].origin_uid == u;
        assert(t.origins[k].origin_uid == u);
    }
}

proof fn lemma_push_notification_wf(s: StoreView, m: NotificationView)
    requires
        s.wf(),
        s.has_origin(m.origin_uid),
        !s.has_notification_uid(m.notification_uid),
    ensures
        (StoreView { notifications: s.notifications.push(m), ..s }).wf(),
{
    let t = StoreView { notifications: s.notifications.push(m), ..s };
    let n = s.notifications.len() as int;
    assert(t.notifications[n] == m);
    assert forall|i: int, j: int| 0 <= i < j < t.notifications.len() implies #[trigger] t.notifications[i].notification_uid
        != #[trigger] t.notifications[j].notification_uid by {
        assert(t.notifications[i] == s.notifications[i]);
        if j < n {
            assert(t.notifications[j] == s.notifications[j]);
        }
    }
    assert forall|i: int| 0 <= i < t.notifications.len() implies t.has_origin(
        #[trigger] t.notifications[i].origin_uid,
    ) by {
        let u = t.notifications[i].origin_uid;
        if i < n {
            assert(t.notifications[i] == s.notifications[i]);
            assert(s.has_origin(s.notifications[i].origin_uid));
        }
        assert(s.has_origin(u));
        let k = choose|k: int| 0 <= k < s.origins.len() && s.origins[k].origin_uid == u;
        assert(t.origins[k].origin_uid == u);
    }
}

impl Store {
    #[verifier::type_invariant]
    spec fn inv(&self) -> bool {
        self@.wf()
    }

    /// Takes the tables out of the store, leaving it empty.
    fn take_tables(&mut self) -> (r: (Vec<Origin>, Vec<Query>, Vec<QueryFailure>, Vec<Notification>))
        ensures
            old(self)@.wf(),
            r.0@.map_values(|o: Origin| o@) == old(self)@.origins,
            r.1@ == old(self)@.queries,
            r.2@ == old(self)@.failures,
            r.3@.map_values(|n: Notification| n@) == old(self)@.notifications,
    {
        proof {
            use_type_invariant(&*self);
        }
        let mut owned = Store::new();
        std::mem::swap(self, &mut owned);
        let Store { origins, queries, failures, notifications } = owned;
        (origins, queries, failures, notifications)
    }

    /// An empty store.
    pub fn new() -> (r: Store)
        ensures
            r@.origins.len() == 0,
            r@.queries.len() == 0,
            r@.failures.len() == 0,
            r@.notifications.len() == 0,
            r@.wf(),
    {
        let r = Store {
            origins: Vec::new(),
            queries: Vec::new(),
            failures: Vec::new(),
            notifications: Vec::new(),
        };
        r
    }

    fn origin_exists(&self, origin_uid: u128) -> (r: bool)
        ensures
            r == self@.has_origin(origin_uid),
    {
        let mut i: usize = 0;
        while i < self.origins.len()
            invariant
                0 <= i <= self.origins@.len(),
                forall|k: int| 0 <= k < i ==> self@.origins[k].origin_uid != origin_uid,
            decreases self.origins@.len() - i,
        {
            if self.origins[i].origin_uid == origin_uid {
                assert(self@.origins[i as int].origin_uid == origin_uid);
                return true;
            }
            i = i + 1;
        }
        false
    }

    fn uri_exists(&self, uri: &String) -> (r: bool)
        ensures
            r == self@.has_uri(uri@),
    {
        let mut i: usize = 0;
        while i < self.origins.len()
            invariant
                0 <= i <= self.origins@.len(),
                forall|k: int| 0 <= k < i ==> self@.origins[k].uri != uri@,
            decreases self.origins@.len() - i,
        {
            assert(self.origins@[i as int]@ == self@.origins[i as int]);
            if self.origins[i].uri == *uri {
                assert(self@.origins[i as int].uri == uri@);
                return true;
            }
            i = i + 1;
        }
        false
    }

    fn query_uid_taken(&self, uid: u128) -> (r: bool)
        ensures
            r == self@.has_query_uid(uid),
    {
        let mut i: usize = 0;
        while i < self.queries.len()
            invariant
                0 <= i <= self.queries@.len(),
                forall|k: int| 0 <= k < i ==> self@.queries[k].query_uid != uid,
            decreases self.queries@.len() - i,
        {
            if self.queries[i].query_uid == uid {
                assert(self@.queries[i as int].query_uid == uid);
                return true;
            }
            i = i + 1;
        }
        false
    }

    fn failure_uid_taken(&self, uid: u128) -> (r: bool)
        ensures
            r == self@.has_failure_uid(uid),
    {
        let mut i: usize = 0;
        while i < self.failures.len()
            invariant
                0 <= i <= self.failures@.len(),
                forall|k: int| 0 <= k < i ==> self@.failures[k].query_failure_uid != uid,
            decreases self.failures@.len() - i,
        {
            if self.failures[i].query_failure_uid == uid {
                assert(self@.failures[i as int].query_failure_uid == uid);
                return true;
            }
            i = i + 1;
        }
        false
    }

    fn notification_uid_taken(&self, uid: u128) -> (r: bool)
        ensures
            r == self@.has_notification_uid(uid),
    {
        let mut i: usize = 0;
        while i < self.notifications.len()
            invariant
                0 <= i <= self.notifications@.len(),
                forall|k: int| 0 <= k < i ==> self@.notifications[k].notification_uid != uid,
            decreases self.notifications@.len() - i,
        {
            assert(self.notifications@[i as int]@ == self@.notifications[i as int]);
            if self.notifications[i].notification_uid == uid {
                assert(self@.notifications[i as int].notification_uid == uid);
                return true;
            }
            i = i + 1;
        }
        false
    }
}

/// Registers a new origin.
pub fn insert_origin(store: &mut Store, origin_uid: u128, uri: &str) -> (r: Result<(), StoreError>)
    ensures
        final(store)@.wf(),
        (r == Err::<(), StoreError>(StoreError::DuplicateOrigin)) <==> old(store)@.has_origin(
            origin_uid,
        ),
        (r == Err::<(), StoreError>(StoreError::DuplicateUri)) <==> (!old(store)@.has_origin(
            origin_uid,
        ) && old(store)@.has_uri(uri@)),
        r is Ok <==> (!old(store)@.has_origin(origin_uid) && !old(store)@.has_uri(uri@)),
        r is Err ==> final(store)@ == old(store)@,
        r is Ok ==> final(store)@ == (StoreView {
            origins: old(store)@.origins.push(OriginView { origin_uid, uri: uri@ }),
            ..old(store)@
        }),
        r is Ok ==> final(store)@.has_origin(origin_uid),
{
    proof {
        use_type_invariant(&*store);
    }
    if store.origin_exists(origin_uid) {
        return Err(StoreError::DuplicateOrigin);
    }
    let uri = String::from_str(uri);
    if store.uri_exists(&uri) {
        return Err(StoreError::DuplicateUri);
    }
    let ghost before = store@;
    let ghost added = OriginView { origin_uid, uri: uri@ };
    proof {
        lemma_push_origin_wf(before, added);
    }
    let (mut origins, queries, failures, notifications) = store.take_tables();
    origins.push(Origin { origin_uid, uri });
    assert(origins@.map_values(|o: Origin| o@) =~= before.origins.push(added));
    *store = Store { origins, queries, failures, notifications };
    Ok(())
}

/// Lists every registered origin, in the order of registration.
pub fn fetch_origins(store: &Store) -> (r: Vec<Origin>)
    ensures
        r@.map_values(|o: Origin| o@) == store@.origins,
{
    let mut r: Vec<Origin> = Vec::new();
    let mut i: usize = 0;
    while i < store.origins.len()
        invariant
            0 <= i <= store.origins@.len(),
            r@.map_values(|o: Origin| o@) =~= store@.origins.subrange(0, i as int),
        decreases store.origins@.len() - i,
    {
        let o = store.origins[i].clone();
        assert(o@ == store@.origins[i as int]);
        let ghost prev = r@;
        r.push(o);
        assert(r@.map_values(|o: Origin| o@) =~= prev.map_values(|o: Origin| o@).push(o@));
        i = i + 1;
    }
    assert(store@.origins.subrange(0, i as int) =~= store@.origins);
    r
}

/// Records a success row under its own identifier, which must be new in its
/// table.
pub fn insert_query_row(store: &mut Store, row: Query) -> (r: Result<(), StoreError>)
    ensures
        final(store)@.wf(),
        (r == Err::<(), StoreError>(StoreError::UnknownOrigin)) <==> !old(store)@.has_origin(
            row.origin_uid,
        ),
        (r == Err::<(), StoreError>(StoreError::DuplicateId)) <==> (old(store)@.has_origin(
            row.origin_uid,
        ) && old(store)@.has_query_uid(row.query_uid)),
        r is Err ==> (r->Err_0 == StoreError::UnknownOrigin || r->Err_0 == StoreError::DuplicateId)
            && final(store)@ == old(store)@,
        r is Ok ==> final(store)@ == (StoreView { queries: old(store)@.queries.push(row), ..old(store)@ }),
{
    proof {
        use_type_invariant(&*store);
    }
    if !store.origin_exists(row.origin_uid) {
        return Err(StoreError::UnknownOrigin);
    }
    if store.query_uid_taken(row.query_uid) {
        return Err(StoreError::DuplicateId);
    }
    proof {
        lemma_push_query_wf(store@, row);
    }
    let (origins, mut queries, failures, notifications) = store.take_tables();
    queries.push(row);
    *store = Store { origins, queries, failures, notifications };
    Ok(())
}

/// Records a probe that completed as an HTTP response, under a freshly drawn
/// identifier.
pub fn insert_query(
    store: &mut Store,
    origin_uid: u128,
    status: u16,
    latency_millis: i64,
    queried_at: i64,
) -> (r: Result<u128, StoreError>)
    ensures
        final(store)@.wf(),
        (r == Err::<u128, StoreError>(StoreError::UnknownOrigin)) <==> !old(store)@.has_origin(
            origin_uid,
        ),
        r is Err ==> (r->Err_0 == StoreError::UnknownOrigin || r->Err_0 == StoreError::DuplicateId)
            && final(store)@ == old(store)@,
        r is Ok ==> !old(store)@.has_query_uid(r->Ok_0),
        r is Ok ==> final(store)@ == (StoreView {
            queries: old(store)@.queries.push(
                Query { query_uid: r->Ok_0, origin_uid, status, latency_millis, queried_at },
            ),
            ..old(store)@
        }),
{
    let query_uid = new_uid();
    match insert_query_row(
        store,
        Query { query_uid, origin_uid, status, latency_millis, queried_at },
    ) {
        Ok(()) => Ok(query_uid),
        Err(e) => Err(e),
    }
}

/// Records a failure row under its own identifier, which must be new in its
/// table.
pub fn insert_query_failure_row(store: &mut Store, row: QueryFailure) -> (r: Result<(), StoreError>)
    ensures
        final(store)@.wf(),
        (r == Err::<(), StoreError>(StoreError::UnknownOrigin)) <==> !old(store)@.has_origin(
            row.origin_uid,
        ),
        (r == Err::<(), StoreError>(StoreError::DuplicateId)) <==> (old(store)@.has_origin(
            row.origin_uid,
        ) && old(store)@.has_failure_uid(row.query_failure_uid)),
        r is Err ==> (r->Err_0 == StoreError::UnknownOrigin || r->Err_0 == StoreError::DuplicateId)
            && final(store)@ == old(store)@,
        r is Ok ==> final(store)@ == (StoreView { failures: old(store)@.failures.push(row), ..old(store)@ }),
{
    proof {
        use_type_invariant(&*store);
    }
    if !store.origin_exists(row.origin_uid) {
        return Err(StoreError::UnknownOrigin);
    }
    if store.failure_uid_taken(row.query_failure_uid) {
        return Err(StoreError::DuplicateId);
    }
    proof {
        lemma_push_failure_wf(store@, row);
    }
    let (origins, queries, mut failures, notifications) = store.take_tables();
    failures.push(row);
    *store = Store { origins, queries, failures, notifications };
    Ok(())
}

/// Records a probe that did not complete as an HTTP response, under a
/// freshly drawn identifier.
pub fn insert_query_failure(
    store: &mut Store,
    origin_uid: u128,
    failure_reason: FailureReason,
    queried_at: i64,
) -> (r: Result<u128, StoreError>)
    ensures
        final(store)@.wf(),
        (r == Err::<u128, StoreError>(StoreError::UnknownOrigin)) <==> !old(store)@.has_origin(
            origin_uid,
        ),
        r is Err ==> (r->Err_0 == StoreError::UnknownOrigin || r->Err_0 == StoreError::DuplicateId)
            && final(store)@ == old(store)@,
        r is Ok ==> !old(store)@.has_failure_uid(r->Ok_0),
        r is Ok ==> final(store)@ == (StoreView {
            failures: old(store)@.failures.push(
                QueryFailure { query_failure_uid: r->Ok_0, origin_uid, failure_reason, queried_at },
            ),
            ..old(store)@
        }),
{
    let query_failure_uid = new_uid();
    match insert_query_failure_row(
        store,
        QueryFailure { query_failure_uid, origin_uid, failure_reason, queried_at },
    ) {
        Ok(()) => Ok(query_failure_uid),
        Err(e) => Err(e),
    }
}

/// Records a notification row under its own identifier, which must be new
/// in its table.
pub fn insert_notification_row(store: &mut Store, row: Notification) -> (r: Result<(), StoreError>)
    ensures
        final(store)@.wf(),
        (r == Err::<(), StoreError>(StoreError::UnknownOrigin)) <==> !old(store)@.has_origin(
            row.origin_uid,
        ),
        (r == Err::<(), StoreError>(StoreError::DuplicateId)) <==> (old(store)@.has_origin(
            row.origin_uid,
        ) && old(store)@.has_notification_uid(row.notification_uid)),
        r is Err ==> (r->Err_0 == StoreError::UnknownOrigin || r->Err_0 == StoreError::DuplicateId)
            && final(store)@ == old(store)@,
        r is Ok ==> final(store)@ == (StoreView {
            notifications: old(store)@.notifications.push(row@),
            ..old(store)@
        }),
{
    proof {
        use_type_invariant(&*store);
    }
    if !store.origin_exists(row.origin_uid) {
        return Err(StoreError::UnknownOrigin);
    }
    if store.notification_uid_taken(row.notification_uid) {
        return Err(StoreError::DuplicateId);
    }
    let ghost before = store@;
    let ghost added = row@;
    proof {
        lemma_push_notification_wf(before, added);
    }
    let (origins, queries, failures, mut notifications) = store.take_tables();
    notifications.push(row);
    assert(notifications@.map_values(|n: Notification| n@) =~= before.notifications.push(added));
    *store = Store { origins, queries, failures, notifications };
    Ok(())
}

/// Records a dispatched notification, under a freshly drawn identifier.
pub fn insert_notification(
    store: &mut Store,
    origin_uid: u128,
    topic: &str,
    subject: &str,
    message: &str,
    created_at: i64,
) -> (r: Result<u128, StoreError>)
    ensures
        final(store)@.wf(),
        (r == Err::<u128, StoreError>(StoreError::UnknownOrigin)) <==> !old(store)@.has_origin(
            origin_uid,
        ),
        r is Err ==> (r->Err_0 == StoreError::UnknownOrigin || r->Err_0 == StoreError::DuplicateId)
            && final(store)@ == old(store)@,
        r is Ok ==> !old(store)@.has_notification_uid(r->Ok_0),
        r is Ok ==> final(store)@ == (StoreView {
            notifications: old(store)@.notifications.push(
                NotificationView {
                    notification_uid: r->Ok_0,
                    origin_uid,
                    topic: topic@,
                    subject: subject@,
                    message: message@,
                    created_at,
                },
            ),
            ..old(store)@
        }),
{
    let notification_uid = new_uid();
    let row = Notification {
        notification_uid,
        origin_uid,
        topic: String::from_str(topic),
        subject: String::from_str(subject),
        message: String::from_str(message),
        created_at,
    };
    match insert_notification_row(store, row) {
        Ok(()) => Ok(notification_uid),
        Err(e) => Err(e),
    }
}

/// Of the first `n` successes, the index of the most recent one of an origin:
/// the latest `queried_at`, and among equal times the one recorded last.
pub open spec fn latest_query_upto(qs: Seq<Query>, uid: u128, n: int) -> Option<int>
    decreases n,
{
    if n <= 0 {
        None
    } else {
        let prev = latest_query_upto(qs, uid, n - 1);
        if qs[n - 1].origin_uid == uid && (prev is None || qs[prev->0].queried_at
            <= qs[n - 1].queried_at) {
            Some(n - 1)
        } else {
            prev
        }
    }
}

pub open spec fn latest_query(qs: Seq<Query>, uid: u128) -> Option<int> {
    latest_query_upto(qs, uid, qs.len() as int)
}

/// Of the first `n` failures, the index of the most recent one of an origin,
/// chosen as for successes.
pub open spec fn latest_failure_upto(fs: Seq<QueryFailure>, uid: u128, n: int) -> Option<int>
    decreases n,
{
    if n <= 0 {
        None
    } else {
        let prev = latest_failure_upto(fs, uid, n - 1);
        if fs[n - 1].origin_uid == uid && (prev is None || fs[prev->0].queried_at
            <= fs[n - 1].queried_at) {
            Some(n - 1)
        } else {
            prev
        }
    }
}

pub open spec fn latest_failure(fs: Seq<QueryFailure>, uid: u128) -> Option<int> {
    latest_failure_upto(fs, uid, fs.len() as int)
}

pub open spec fn as_index(o: Option<usize>) -> Option<int> {
    match o {
        Some(i) => Some(i as int),
        None => None,
    }
}

impl Store {
    fn latest_query_index(&self, origin_uid: u128) -> (r: Option<usize>)
        ensures
            as_index(r) == latest_query(self@.queries, origin_uid),
            r is Some ==> r->0 < self@.queries.len(),
    {
        let mut best: Option<usize> = None;
        let mut i: usize = 0;
        while i < self.queries.len()
            invariant
                0 <= i <= self.queries@.len(),
                as_index(best) == latest_query_upto(self@.queries, origin_uid, i as int),
                best is Some ==> best->0 < i,
            decreases self.queries@.len() - i,
        {
            let q = self.queries[i];
            if q.origin_uid == origin_uid {
                match best {
                    None => {
                        best = Some(i);
                    },
                    Some(b) => {
                        if self.queries[b].queried_at <= q.queried_at {
                            best = Some(i);
                        }
                    },
                }
            }
            i = i + 1;
        }
        best
    }

    fn latest_failure_index(&self, origin_uid: u128) -> (r: Option<usize>)
        ensures
            as_index(r) == latest_failure(self@.failures, origin_uid),
            r is Some ==> r->0 < self@.failures.len(),
    {
        let mut best: Option<usize> = None;
        let mut i: usize = 0;
        while i < self.failures.len()
            invariant
                0 <= i <= self.failures@.len(),
                as_index(best) == latest_failure_upto(self@.failures, origin_uid, i as int),
                best is Some ==> best->0 < i,
            decreases self.failures@.len() - i,
        {
            let f = self.failures[i];
            if f.origin_uid == origin_uid {
                match best {
                    None => {
                        best = Some(i);
                    },
                    Some(b) => {
                        if self.failures[b].queried_at <= f.queried_at {
                            best = Some(i);
                        }
                    },
                }
            }
            i = i + 1;
        }
        best
    }
}

/// The most recent success of one origin, for the dashboard.
#[derive(Debug)]
pub struct IndexOrigin {
    pub uri: String,
    pub status: u16,
    pub latency_millis: i64,
    pub queried_at: i64,
}

pub struct IndexOriginView {
    pub uri: Seq<char>,
    pub status: u16,
    pub latency_millis: i64,
    pub queried_at: i64,
}

impl View for IndexOrigin {
    type V = IndexOriginView;

    open spec fn view(&self) -> IndexOriginView {
        IndexOriginView {
            uri: self.uri@,
            status: self.status,
            latency_millis: self.latency_millis,
            queried_at: self.queried_at,
        }
    }
}

/// The most recent failure of one origin, for the dashboard.
#[derive(Debug)]
pub struct OriginFailure {
    pub uri: String,
    pub failure_reason: String,
    pub queried_at: i64,
}

pub struct OriginFailureView {
    pub uri: Seq<char>,
    pub failure_reason: Seq<char>,
    pub queried_at: i64,
}

impl View for OriginFailure {
    type V = OriginFailureView;

    open spec fn view(&self) -> OriginFailureView {
        OriginFailureView {
            uri: self.uri@,
            failure_reason: self.failure_reason@,
            queried_at: self.queried_at,
        }
    }
}

/// For each of the first `n` origins that has a success, in the order of
/// registration, its most recent success.
pub open spec fn success_rows_upto(s: StoreView, n: int) -> Seq<IndexOriginView>
    decreases n,
{
    if n <= 0 {
        Seq::empty()
    } else {
        let rest = success_rows_upto(s, n - 1);
        let o = s.origins[n - 1];
        match latest_query(s.queries, o.origin_uid) {
            Some(i) => rest.push(
                IndexOriginView {
                    uri: o.uri,
                    status: s.queries[i].status,
                    latency_millis: s.queries[i].latency_millis,
                    queried_at: s.queries[i].queried_at,
                },
            ),
            None => rest,
        }
    }
}

pub open spec fn success_rows(s: StoreView) -> Seq<IndexOriginView> {
    success_rows_upto(s, s.origins.len() as int)
}

/// For each of the first `n` origins that has a failure, in the order of
/// registration, its most recent failure.
pub open spec fn failure_rows_upto(s: StoreView, n: int) -> Seq<OriginFailureView>
    decreases n,
{
    if n <= 0 {
        Seq::empty()
    } else {
        let rest = failure_rows_upto(s, n - 1);
        let o = s.origins[n - 1];
        match latest_failure(s.failures, o.origin_uid) {
            Some(i) => rest.push(
                OriginFailureView {
                    uri: o.uri,
                    failure_reason: reason_name(s.failures[i].failure_reason),
                    queried_at: s.failures[i].queried_at,
                },
            ),
            None => rest,
        }
    }
}

pub open spec fn failure_rows(s: StoreView) -> Seq<OriginFailureView> {
    failure_rows_upto(s, s.origins.len() as int)
}

/// The most recent success of every origin that has one.
pub fn fetch_origins_with_most_recent_success_metrics(store: &Store) -> (r: Vec<IndexOrigin>)
    ensures
        r@.map_values(|x: IndexOrigin| x@) == success_rows(store@),
{
    let mut r: Vec<IndexOrigin> = Vec::new();
    let mut k: usize = 0;
    while k < store.origins.len()
        invariant
            0 <= k <= store.origins@.len(),
            r@.map_values(|x: IndexOrigin| x@) =~= success_rows_upto(store@, k as int),
        decreases store.origins@.len() - k,
    {
        let o = &store.origins[k];
        assert(o@ == store@.origins[k as int]);
        match store.latest_query_index(o.origin_uid) {
            Some(i) => {
                let q = store.queries[i];
                let row = IndexOrigin {
                    uri: o.uri.clone(),
                    status: q.status,
                    latency_millis: q.latency_millis,
                    queried_at: q.queried_at,
                };
                let ghost prev = r@;
                r.push(row);
                assert(r@.map_values(|x: IndexOrigin| x@) =~= prev.map_values(
                    |x: IndexOrigin| x@,
                ).push(row@));
            },
            None => {},
        }
        k = k + 1;
    }
    r
}

/// The most recent failure of every origin that has one.
pub fn fetch_origins_with_most_recent_failure_metrics(store: &Store) -> (r: Vec<OriginFailure>)
    ensures
        r@.map_values(|x: OriginFailure| x@) == failure_rows(store@),
{
    let mut r: Vec<OriginFailure> = Vec::new();
    let mut k: usize = 0;
    while k < store.origins.len()
        invariant
            0 <= k <= store.origins@.len(),
            r@.map_values(|x: OriginFailure| x@) =~= failure_rows_upto(store@, k as int),
        decreases store.origins@.len() - k,
    {
        let o = &store.origins[k];
        assert(o@ == store@.origins[k as int]);
        match store.latest_failure_index(o.origin_uid) {
            Some(i) => {
                let f = store.failures[i];
                let row = OriginFailure {
                    uri: o.uri.clone(),
                    failure_reason: String::from_str(f.failure_reason.as_str()),
                    queried_at: f.queried_at,
                };
                let ghost prev = r@;
                r.push(row);
                assert(r@.map_values(|x: OriginFailure| x@) =~= prev.map_values(
                    |x: OriginFailure| x@,
                ).push(row@));
            },
            None => {},
        }
        k = k + 1;
    }
    r
}

/// Of the first `n` failures, how many belong to the origin and were observed
/// in `[start, end]`, both ends included.
pub open spec fn failures_in_window_upto(
    fs: Seq<QueryFailure>,
    uid: u128,
    start: int,
    end: int,
    n: int,
) -> nat
    decreases n,
{
    if n <= 0 {
        0
    } else {
        failures_in_window_upto(fs, uid, start, end, n - 1) + if fs[n - 1].origin_uid == uid
            && start <= fs[n - 1].queried_at <= end {
            1nat
        } else {
            0nat
        }
    }
}

pub open spec fn failures_in_window(fs: Seq<QueryFailure>, uid: u128, start: int, end: int) -> nat {
    failures_in_window_upto(fs, uid, start, end, fs.len() as int)
}

/// Whether the origin failed at least `limit` times in `[now - period, now]`.
pub open spec fn failure_rate_exceeded_spec(
    s: StoreView,
    uid: u128,
    limit: u16,
    period: i64,
    now: i64,
) -> bool {
    failures_in_window(s.failures, uid, now - period, now as int) >= limit
}

/// Whether a notification for the origin was created after `boundary`.
pub open spec fn notified_after(ns: Seq<NotificationView>, uid: u128, boundary: int) -> bool {
    exists|i: int|
        0 <= i < ns.len() && (#[trigger] ns[i]).origin_uid == uid && ns[i].created_at > boundary
}

/// Whether no notification for the origin was created within the trailing
/// cooldown; one created exactly at its start does not count.
pub open spec fn cooled_down_spec(s: StoreView, uid: u128, cooldown: i64, now: i64) -> bool {
    !notified_after(s.notifications, uid, now - cooldown)
}

/// Whether the origin failed at least `limit` times within the trailing
/// `period` before `now`, both ends included.
pub fn failure_rate_exceeded(
    store: &Store,
    origin_uid: u128,
    limit: u16,
    period: i64,
    now: i64,
) -> (r: bool)
    ensures
        r == failure_rate_exceeded_spec(store@, origin_uid, limit, period, now),
        store@.wf(),
{
    proof {
        use_type_invariant(store);
    }
    let start: i128 = now as i128 - period as i128;
    let mut count: usize = 0;
    let mut i: usize = 0;
    while i < store.failures.len()
        invariant
            0 <= i <= store.failures@.len(),
            start == now - period,
            count <= i,
            count == failures_in_window_upto(
                store@.failures,
                origin_uid,
                now - period,
                now as int,
                i as int,
            ),
        decreases store.failures@.len() - i,
    {
        let f = store.failures[i];
        if f.origin_uid == origin_uid && start <= f.queried_at as i128 && f.queried_at <= now {
            count = count + 1;
        }
        i = i + 1;
    }
    count >= limit as usize
}

/// Whether the origin has had no notification within the trailing `cooldown`
/// before `now`.
pub fn latest_notification_older_than(
    store: &Store,
    origin_uid: u128,
    cooldown: i64,
    now: i64,
) -> (r: bool)
    ensures
        r == cooled_down_spec(store@, origin_uid, cooldown, now),
{
    let boundary: i128 = now as i128 - cooldown as i128;
    let mut i: usize = 0;
    while i < store.notifications.len()
        invariant
            0 <= i <= store.notifications@.len(),
            boundary == now - cooldown,
            forall|k: int|
                0 <= k < i ==> !((#[trigger] store@.notifications[k]).origin_uid == origin_uid
                    && store@.notifications[k].created_at > now - cooldown),
        decreases store.notifications@.len() - i,
    {
        let n = &store.notifications[i];
        assert(n@ == store@.notifications[i as int]);
        if n.origin_uid == origin_uid && n.created_at as i128 > boundary {
            return false;
        }
        i = i + 1;
    }
    true
}

proof fn lemma_latest_query_upto(qs: Seq<Query>, uid: u128, n: int)
    requires
        0 <= n <= qs.len(),
    ensures
        match latest_query_upto(qs, uid, n) {
            Some(i) => 0 <= i < n && qs[i].origin_uid == uid && forall|j: int|
                0 <= j < n && #[trigger] qs[j].origin_uid == uid ==> qs[j].queried_at
                    < qs[i].queried_at || (qs[j].queried_at == qs[i].queried_at && j <= i),
            None => forall|j: int| 0 <= j < n ==> #[trigger] qs[j].origin_uid != uid,
        },
    decreases n,
{
    if n > 0 {
        lemma_latest_query_upto(qs, uid, n - 1);
    }
}

/// The success that the store takes as an origin's most recent is one of that
/// origin's successes, and no other success of that origin has a later
/// `queried_at`, nor the same one and a later record. Where the origin has no
/// success, there is none.
pub proof fn lemma_latest_query_is_most_recent(qs: Seq<Query>, uid: u128)
    ensures
        match latest_query(qs, uid) {
            Some(i) => 0 <= i < qs.len() && qs[i].origin_uid == uid && forall|j: int|
                0 <= j < qs.len() && #[trigger] qs[j].origin_uid == uid ==> qs[j].queried_at
                    < qs[i].queried_at || (qs[j].queried_at == qs[i].queried_at && j <= i),
            None => forall|j: int| 0 <= j < qs.len() ==> #[trigger] qs[j].origin_uid != uid,
        },
{
    lemma_latest_query_upto(qs, uid, qs.len() as int);
}

proof fn lemma_latest_query_upto_prefix(qs: Seq<Query>, q: Query, uid: u128, n: int)
    requires
        0 <= n <= qs.len(),
    ensures
        latest_query_upto(qs.push(q), uid, n) == latest_query_upto(qs, uid, n),
    decreases n,
{
    if n > 0 {
        lemma_latest_query_upto_prefix(qs, q, uid, n - 1);
        assert(qs.push(q)[n - 1] == qs[n - 1]);
        let prev = latest_query_upto(qs, uid, n - 1);
        lemma_latest_query_upto(qs, uid, n - 1);
        if prev is Some {
            assert(qs.push(q)[prev->0] == qs[prev->0]);
        }
    }
}

proof fn lemma_success_rows_cover(s: StoreView, k: int, n: int)
    requires
        0 <= k < n <= s.origins.len(),
        latest_query(s.queries, s.origins[k].origin_uid) is Some,
    ensures
        ({
            let i = latest_query(s.queries, s.origins[k].origin_uid)->0;
            exists|m: int|
                0 <= m < success_rows_upto(s, n).len() && #[trigger] success_rows_upto(s, n)[m]
                    == (IndexOriginView {
                    uri: s.origins[k].uri,
                    status: s.queries[i].status,
                    latency_millis: s.queries[i].latency_millis,
                    queried_at: s.queries[i].queried_at,
                })
        }),
    decreases n,
{
    let i = latest_query(s.queries, s.origins[k].origin_uid)->0;
    let row = IndexOriginView {
        uri: s.origins[k].uri,
        status: s.queries[i].status,
        latency_millis: s.queries[i].latency_millis,
        queried_at: s.queries[i].queried_at,
    };
    let rest = success_rows_upto(s, n - 1);
    if k == n - 1 {
        assert(success_rows_upto(s, n)[rest.len() as int] == row);
    } else {
        lemma_success_rows_cover(s, k, n - 1);
        let m = choose|m: int| 0 <= m < rest.len() && #[trigger] rest[m] == row;
        assert(success_rows_upto(s, n)[m] == row);
    }
}

proof fn lemma_success_rows_distinct(s: StoreView, n: int)
    requires
        0 <= n <= s.origins.len(),
        forall|i: int, j: int|
            0 <= i < j < s.origins.len() ==> #[trigger] s.origins[i].uri != #[trigger] s.origins[j].uri,
    ensures
        forall|m: int|
            0 <= m < success_rows_upto(s, n).len() ==> exists|k: int|
                0 <= k < n && (#[trigger] s.origins[k]).uri == #[trigger] success_rows_upto(s, n)[m].uri,
        forall|m1: int, m2: int|
            0 <= m1 < m2 < success_rows_upto(s, n).len() ==> #[trigger] success_rows_upto(s, n)[m1].uri
                != #[trigger] success_rows_upto(s, n)[m2].uri,
    decreases n,
{
    if n > 0 {
        lemma_success_rows_distinct(s, n - 1);
        let rest = success_rows_upto(s, n - 1);
        let rows = success_rows_upto(s, n);
        if latest_query(s.queries, s.origins[n - 1].origin_uid) is Some {
            assert(rows.len() == rest.len() + 1);
            assert forall|m: int| 0 <= m < rows.len() implies exists|k: int|
                0 <= k < n && (#[trigger] s.origins[k]).uri == #[trigger] rows[m].uri by {
                if m < rest.len() {
                    assert(rows[m] == rest[m]);
                    let k = choose|k: int| 0 <= k < n - 1 && (#[trigger] s.origins[k]).uri == rest[m].uri;
                    assert(s.origins[k].uri == rows[m].uri);
                } else {
                    assert(s.origins[n - 1].uri == rows[m].uri);
                }
            }
            assert forall|m1: int, m2: int| 0 <= m1 < m2 < rows.len() implies #[trigger] rows[m1].uri
                != #[trigger] rows[m2].uri by {
                assert(rows[m1] == rest[m1]);
                if m2 < rest.len() {
                    assert(rows[m2] == rest[m2]);
                } else {
                    let k = choose|k: int| 0 <= k < n - 1 && (#[trigger] s.origins[k]).uri == rest[m1].uri;
                    assert(s.origins[k].uri != s.origins[n - 1].uri);
                }
            }
        } else {
            assert(rows == rest);
            assert forall|m: int| 0 <= m < rows.len() implies exists|k: int|
                0 <= k < n && (#[trigger] s.origins[k]).uri == #[trigger] rows[m].uri by {
                let k = choose|k: int| 0 <= k < n - 1 && (#[trigger] s.origins[k]).uri == rest[m].uri;
                assert(s.origins[k].uri == rows[m].uri);
            }
        }
    }
}

/// A success recorded for a registered origin, no earlier than that origin's
/// other successes, is what the most-recent-success query then reports for
/// it, in the one row that carries its URI: its status code and latency
/// exactly.
pub proof fn lemma_recorded_success_is_reported(s: StoreView, k: int, q: Query)
    requires
        s.wf(),
        0 <= k < s.origins.len(),
        q.origin_uid == s.origins[k].origin_uid,
        forall|j: int|
            0 <= j < s.queries.len() && #[trigger] s.queries[j].origin_uid == q.origin_uid
                ==> s.queries[j].queried_at <= q.queried_at,
    ensures
        ({
            let t = StoreView { queries: s.queries.push(q), ..s };
            exists|m: int|
                0 <= m < success_rows(t).len() && #[trigger] success_rows(t)[m] == (
                IndexOriginView {
                    uri: s.origins[k].uri,
                    status: q.status,
                    latency_millis: q.latency_millis,
                    queried_at: q.queried_at,
                }) && forall|m2: int|
                    0 <= m2 < success_rows(t).len() && success_rows(t)[m2].uri == s.origins[k].uri
                        ==> m2 == m
        }),
{
    let t = StoreView { queries: s.queries.push(q), ..s };
    let n = s.queries.len() as int;
    lemma_latest_query_upto_prefix(s.queries, q, q.origin_uid, n);
    lemma_latest_query_upto(s.queries, q.origin_uid, n);
    let prev = latest_query_upto(s.queries, q.origin_uid, n);
    if prev is Some {
        assert(t.queries[prev->0] == s.queries[prev->0]);
    }
    assert(t.queries[n] == q);
    assert(latest_query(t.queries, q.origin_uid) == Some(n));
    lemma_success_rows_cover(t, k, t.origins.len() as int);
    let row = IndexOriginView {
        uri: s.origins[k].uri,
        status: q.status,
        latency_millis: q.latency_millis,
        queried_at: q.queried_at,
    };
    let rows = success_rows_upto(t, t.origins.len() as int);
    let m = choose|m: int| 0 <= m < rows.len() && #[trigger] rows[m] == row;
    assert(success_rows(t)[m] == row);
    lemma_success_rows_distinct(t, t.origins.len() as int);
    assert forall|m2: int|
        0 <= m2 < rows.len() && rows[m2].uri == s.origins[k].uri implies m2 == m by {
        if m2 < m {
            assert(rows[m2].uri != rows[m].uri);
        } else if m < m2 {
            assert(rows[m].uri != rows[m2].uri);
        }
    }
}

proof fn lemma_latest_failure_upto(fs: Seq<QueryFailure>, uid: u128, n: int)
    requires
        0 <= n <= fs.len(),
    ensures
        match latest_failure_upto(fs, uid, n) {
            Some(i) => 0 <= i < n && fs[i].origin_uid == uid && forall|j: int|
                0 <= j < n && #[trigger] fs[j].origin_uid == uid ==> fs[j].queried_at
                    < fs[i].queried_at || (fs[j].queried_at == fs[i].queried_at && j <= i),
            None => forall|j: int| 0 <= j < n ==> #[trigger] fs[j].origin_uid != uid,
        },
    decreases n,
{
    if n > 0 {
        lemma_latest_failure_upto(fs, uid, n - 1);
    }
}

/// The failure that the store takes as an origin's most recent is one of that
/// origin's failures, and no other failure of that origin has a later
/// `queried_at`, nor the same one and a later record. Where the origin has no
/// failure, there is none.
pub proof fn lemma_latest_failure_is_most_recent(fs: Seq<QueryFailure>, uid: u128)
    ensures
        match latest_failure(fs, uid) {
            Some(i) => 0 <= i < fs.len() && fs[i].origin_uid == uid && forall|j: int|
                0 <= j < fs.len() && #[trigger] fs[j].origin_uid == uid ==> fs[j].queried_at
                    < fs[i].queried_at || (fs[j].queried_at == fs[i].queried_at && j <= i),
            None => forall|j: int| 0 <= j < fs.len() ==> #[trigger] fs[j].origin_uid != uid,
        },
{
    lemma_latest_failure_upto(fs, uid, fs.len() as int);
}

proof fn lemma_latest_failure_upto_prefix(fs: Seq<QueryFailure>, f: QueryFailure, uid: u128, n: int)
    requires
        0 <= n <= fs.len(),
    ensures
        latest_failure_upto(fs.push(f), uid, n) == latest_failure_upto(fs, uid, n),
    decreases n,
{
    if n > 0 {
        lemma_latest_failure_upto_prefix(fs, f, uid, n - 1);
        assert(fs.push(f)[n - 1] == fs[n - 1]);
        let prev = latest_failure_upto(fs, uid, n - 1);
        lemma_latest_failure_upto(fs, uid, n - 1);
        if prev is Some {
            assert(fs.push(f)[prev->0] == fs[prev->0]);
        }
    }
}

proof fn lemma_failure_rows_cover(s: StoreView, k: int, n: int)
    requires
        0 <= k < n <= s.origins.len(),
        latest_failure(s.failures, s.origins[k].origin_uid) is Some,
    ensures
        ({
            let i = latest_failure(s.failures, s.origins[k].origin_uid)->0;
            exists|m: int|
                0 <= m < failure_rows_upto(s, n).len() && #[trigger] failure_rows_upto(s, n)[m]
                    == (OriginFailureView {
                    uri: s.origins[k].uri,
                    failure_reason: reason_name(s.failures[i].failure_reason),
                    queried_at: s.failures[i].queried_at,
                })
        }),
    decreases n,
{
    let i = latest_failure(s.failures, s.origins[k].origin_uid)->0;
    let row = OriginFailureView {
        uri: s.origins[k].uri,
        failure_reason: reason_name(s.failures[i].failure_reason),
        queried_at: s.failures[i].queried_at,
    };
    let rest = failure_rows_upto(s, n - 1);
    if k == n - 1 {
        assert(failure_rows_upto(s, n)[rest.len() as int] == row);
    } else {
        lemma_failure_rows_cover(s, k, n - 1);
        let m = choose|m: int| 0 <= m < rest.len() && #[trigger] rest[m] == row;
        assert(failure_rows_upto(s, n)[m] == row);
    }
}

proof fn lemma_failure_rows_distinct(s: StoreView, n: int)
    requires
        0 <= n <= s.origins.len(),
        forall|i: int, j: int|
            0 <= i < j < s.origins.len() ==> #[trigger] s.origins[i].uri != #[trigger] s.origins[j].uri,
    ensures
        forall|m: int|
            0 <= m < failure_rows_upto(s, n).len() ==> exists|k: int|
                0 <= k < n && (#[trigger] s.origins[k]).uri == #[trigger] failure_rows_upto(s, n)[m].uri,
        forall|m1: int, m2: int|
            0 <= m1 < m2 < failure_rows_upto(s, n).len() ==> #[trigger] failure_rows_upto(s, n)[m1].uri
                != #[trigger] failure_rows_upto(s, n)[m2].uri,
    decreases n,
{
    if n > 0 {
        lemma_failure_rows_distinct(s, n - 1);
        let rest = failure_rows_upto(s, n - 1);
        let rows = failure_rows_upto(s, n);
        if latest_failure(s.failures, s.origins[n - 1].origin_uid) is Some {
            assert(rows.len() == rest.len() + 1);
            assert forall|m: int| 0 <= m < rows.len() implies exists|k: int|
                0 <= k < n && (#[trigger] s.origins[k]).uri == #[trigger] rows[m].uri by {
                if m < rest.len() {
                    assert(rows[m] == rest[m]);
                    let k = choose|k: int| 0 <= k < n - 1 && (#[trigger] s.origins[k]).uri == rest[m].uri;
                    assert(s.origins[k].uri == rows[m].uri);
                } else {
                    assert(s.origins[n - 1].uri == rows[m].uri);
                }
            }
            assert forall|m1: int, m2: int| 0 <= m1 < m2 < rows.len() implies #[trigger] rows[m1].uri
                != #[trigger] rows[m2].uri by {
                assert(rows[m1] == rest[m1]);
                if m2 < rest.len() {
                    assert(rows[m2] == rest[m2]);
                } else {
                    let k = choose|k: int| 0 <= k < n - 1 && (#[trigger] s.origins[k]).uri == rest[m1].uri;
                    assert(s.origins[k].uri != s.origins[n - 1].uri);
                }
            }
        } else {
            assert(rows == rest);
            assert forall|m: int| 0 <= m < rows.len() implies exists|k: int|
                0 <= k < n && (#[trigger] s.origins[k]).uri == #[trigger] rows[m].uri by {
                let k = choose|k: int| 0 <= k < n - 1 && (#[trigger] s.origins[k]).uri == rest[m].uri;
                assert(s.origins[k].uri == rows[m].uri);
            }
        }
    }
}

/// A failure recorded for a registered origin, no earlier than that origin's
/// other failures, is what the most-recent-failure query then reports for
/// it, in the one row that carries its URI: the name of its failure reason
/// exactly.
pub proof fn lemma_recorded_failure_is_reported(s: StoreView, k: int, f: QueryFailure)
    requires
        s.wf(),
        0 <= k < s.origins.len(),
        f.origin_uid == s.origins[k].origin_uid,
        forall|j: int|
            0 <= j < s.failures.len() && #[trigger] s.failures[j].origin_uid == f.origin_uid
                ==> s.failures[j].queried_at <= f.queried_at,
    ensures
        ({
            let t = StoreView { failures: s.failures.push(f), ..s };
            exists|m: int|
                0 <= m < failure_rows(t).len() && #[trigger] failure_rows(t)[m] == (
                OriginFailureView {
                    uri: s.origins[k].uri,
                    failure_reason: reason_name(f.failure_reason),
                    queried_at: f.queried_at,
                }) && forall|m2: int|
                    0 <= m2 < failure_rows(t).len() && failure_rows(t)[m2].uri == s.origins[k].uri
                        ==> m2 == m
        }),
{
    let t = StoreView { failures: s.failures.push(f), ..s };
    let n = s.failures.len() as int;
    lemma_latest_failure_upto_prefix(s.failures, f, f.origin_uid, n);
    lemma_latest_failure_upto(s.failures, f.origin_uid, n);
    let prev = latest_failure_upto(s.failures, f.origin_uid, n);
    if prev is Some {
        assert(t.failures[prev->0] == s.failures[prev->0]);
    }
    assert(t.failures[n] == f);
    assert(latest_failure(t.failures, f.origin_uid) == Some(n));
    lemma_failure_rows_cover(t, k, t.origins.len() as int);
    let row = OriginFailureView {
        uri: s.origins[k].uri,
        failure_reason: reason_name(f.failure_reason),
        queried_at: f.queried_at,
    };
    let rows = failure_rows_upto(t, t.origins.len() as int);
    let m = choose|m: int| 0 <= m < rows.len() && #[trigger] rows[m] == row;
    assert(failure_rows(t)[m] == row);
    lemma_failure_rows_distinct(t, t.origins.len() as int);
    assert forall|m2: int|
        0 <= m2 < rows.len() && rows[m2].uri == s.origins[k].uri implies m2 == m by {
        if m2 < m {
            assert(rows[m2].uri != rows[m].uri);
        } else if m < m2 {
            assert(rows[m].uri != rows[m2].uri);
        }
    }
}

} // verus!
