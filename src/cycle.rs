//! The cycle controller: single-flight guard, reanalysis drain, per-account
//! decisions, error aggregation and the run record.
use vstd::prelude::*;
use vstd::string::StringExecFns;
use std::sync::atomic::{AtomicBool, Ordering};
use crate::db::{
    first_pending, ingested, is_target, profile_updated, RequestRow, UserRow, logged, max_created, new_items, statuses_set, targets_selected,
    AnalysisJob, ApiErrorDetail, Database, RequestStatus, RunStatus, StoredTweet, ROW_LIMIT,
};
use crate::error::{description, signed_decimal, signed_decimal_string, aborts_cycle, error_kind, kind_of, should_abort_on_error, CrawlerError, ErrorKind};
use crate::models::{
    ReanalysisRequest, TrackedUser, TwitterApiError, TwitterApiTweet, TwitterApiUser, TwitterUsersResponse,
};
use crate::planner::{plan_start_time, planned_start};
use crate::twitter_api::{entries, TweetFetchResult, TWEETS_ENDPOINT, USERS_ENDPOINT};

verus! {

/// How many pending reanalysis requests one cycle drains at most.
pub const REANALYSIS_BATCH: i64 = 25;

/// Single-flight guard: at most one cycle runs at a time.
pub struct AppState {
    pub is_running: bool,
}

impl AppState {
    pub fn new() -> (r: AppState)
        ensures
            !r.is_running,
    {
        AppState { is_running: false }
    }

    /// Claims the guard; a trigger that finds a cycle running is dropped.
    pub fn try_begin(&mut self) -> (started: bool)
        ensures
            started == !old(self).is_running,
            final(self).is_running,
    {
        if self.is_running {
            false
        } else {
            self.is_running = true;
            true
        }
    }

    /// Releases the guard after a cycle.
    pub fn finish(&mut self)
        ensures
            !final(self).is_running,
    {
        self.is_running = false;
    }
}

/// What one cycle has gathered so far.
pub struct CycleState {
    pub error_details: Vec<ApiErrorDetail>,
    pub tweets_fetched: u64,
    pub tweets_queued: u64,
    pub status: RunStatus,
    /// The time the cycle stamps on the errors it records.
    pub now: i64,
}

impl CycleState {
    /// A cycle that has met nothing yet.
    pub fn new(now: i64) -> (r: CycleState)
        ensures
            r.error_details@.len() == 0,
            r.tweets_fetched == 0,
            r.tweets_queued == 0,
            r.status == RunStatus::Completed,
            r.now == now,
    {
        CycleState { error_details: Vec::new(), tweets_fetched: 0, tweets_queued: 0, status: RunStatus::Completed, now }
    }
}

/// The error entry a cycle records: the kind's label, the message, code,
/// endpoint, and the cycle's time.
pub open spec fn recorded(d: ApiErrorDetail, kind: ErrorKind, message: Seq<char>, code: Option<&str>, endpoint: Option<&str>, now: i64) -> bool {
    logged(d, kind_label(kind), message, code, endpoint, now)
}

/// The label of an error kind.
pub open spec fn kind_label(k: ErrorKind) -> Seq<char> {
    match k {
        ErrorKind::Authentication => "auth"@,
        ErrorKind::RateLimit => "rate_limit"@,
        ErrorKind::Network => "network"@,
        ErrorKind::ApiChange => "api_change"@,
        ErrorKind::Configuration => "config"@,
        ErrorKind::Store => "database"@,
        ErrorKind::Other => "other"@,
    }
}

/// Two optional texts hold the same characters.
pub open spec fn same_text(a: Option<String>, b: Option<String>) -> bool {
    match (a, b) {
        (Some(x), Some(y)) => x@ == y@,
        (None, None) => true,
        _ => false,
    }
}

/// Two error entries say the same thing.
pub open spec fn same_entry(a: ApiErrorDetail, b: ApiErrorDetail) -> bool {
    &&& a.error_type@ == b.error_type@
    &&& a.message@ == b.message@
    &&& same_text(a.code, b.code)
    &&& same_text(a.endpoint, b.endpoint)
    &&& a.timestamp == b.timestamp
}

/// The store's error log grew by the same entries, in the same order, as the
/// cycle's error list; both keep their earlier entries.
pub open spec fn mirrored(d0: Database, d1: Database, s0: CycleState, s1: CycleState) -> bool {
    let n0 = d0.api_errors@.len();
    let m0 = s0.error_details@.len();
    &&& d1.api_errors@.len() >= n0
    &&& s1.error_details@.len() >= m0
    &&& d1.api_errors@.len() - n0 == s1.error_details@.len() - m0
    &&& d1.api_errors@.subrange(0, n0 as int) == d0.api_errors@
    &&& s1.error_details@.subrange(0, m0 as int) == s0.error_details@
    &&& forall|k: int| 0 <= k < d1.api_errors@.len() - n0 ==> same_entry(
        #[trigger] d1.api_errors@[n0 + k],
        s1.error_details@[m0 + k],
    )
}

proof fn lemma_mirror_same(d0: Database, d1: Database, s0: CycleState, s1: CycleState)
    requires
        d1.api_errors@ == d0.api_errors@,
        s1.error_details@ == s0.error_details@,
    ensures
        mirrored(d0, d1, s0, s1),
{
    assert(d1.api_errors@.subrange(0, d0.api_errors@.len() as int) =~= d0.api_errors@);
    assert(s1.error_details@.subrange(0, s0.error_details@.len() as int) =~= s0.error_details@);
}

proof fn lemma_mirror_step(d0: Database, d1: Database, d2: Database, s0: CycleState, s1: CycleState, s2: CycleState)
    requires
        mirrored(d0, d1, s0, s1),
        mirrored(d1, d2, s1, s2),
    ensures
        mirrored(d0, d2, s0, s2),
{
    let n0 = d0.api_errors@.len() as int;
    let n1 = d1.api_errors@.len() as int;
    let m0 = s0.error_details@.len() as int;
    let m1 = s1.error_details@.len() as int;
    assert(d2.api_errors@.subrange(0, n0) =~= d2.api_errors@.subrange(0, n1).subrange(0, n0));
    assert(s2.error_details@.subrange(0, m0) =~= s2.error_details@.subrange(0, m1).subrange(0, m0));
    assert forall|k: int| 0 <= k < d2.api_errors@.len() - n0 implies same_entry(
        #[trigger] d2.api_errors@[n0 + k],
        s2.error_details@[m0 + k],
    ) by {
        if k < n1 - n0 {
            assert(d2.api_errors@[n0 + k] == d2.api_errors@.subrange(0, n1)[n0 + k]);
            assert(s2.error_details@[m0 + k] == s2.error_details@.subrange(0, m1)[m0 + k]);
            assert(same_entry(d1.api_errors@[n0 + k], s1.error_details@[m0 + k]));
        } else {
            let k2 = k - (n1 - n0);
            assert(same_entry(d2.api_errors@[n1 + k2], s2.error_details@[m1 + k2]));
        }
    }
}

/// Records an error in the cycle's list and in the store's error log.
pub fn record_error(
    database: &mut Database,
    state: &mut CycleState,
    kind: ErrorKind,
    message: String,
    code: Option<&str>,
    endpoint: Option<&str>,
)
    requires
        old(database).wf(),
    ensures
        mirrored(*old(database), *final(database), *old(state), *final(state)),
        final(database).models == old(database).models,
        final(database).wf(),
        final(state).error_details@.len() == old(state).error_details@.len() + 1,
        final(state).error_details@.drop_last() == old(state).error_details@,
        recorded(final(state).error_details@.last(), kind, message@, code, endpoint, old(state).now),
        final(database).api_errors@.len() == old(database).api_errors@.len() + 1,
        final(database).api_errors@.drop_last() == old(database).api_errors@,
        recorded(final(database).api_errors@.last(), kind, message@, code, endpoint, old(state).now),
        final(state).tweets_fetched == old(state).tweets_fetched,
        final(state).tweets_queued == old(state).tweets_queued,
        final(state).status == old(state).status,
        final(state).now == old(state).now,
        final(database).tweets == old(database).tweets,
        final(database).jobs == old(database).jobs,
        final(database).checkpoints == old(database).checkpoints,
        final(database).users == old(database).users,
        final(database).models == old(database).models,
        final(database).requests == old(database).requests,
        final(database).runs == old(database).runs,
{
    let label = kind.as_str();
    let _ = database.insert_api_error(label, message.as_str(), code, endpoint, state.now);
    let detail = ApiErrorDetail {
        error_type: label.to_owned(),
        message,
        code: match code {
            Some(c) => Some(c.to_owned()),
            None => None,
        },
        endpoint: match endpoint {
            Some(e) => Some(e.to_owned()),
            None => None,
        },
        timestamp: state.now,
    };
    state.error_details.push(detail);
    proof {
        assert(state.error_details@.drop_last() =~= old(state).error_details@);
    }
}

/// The message recorded for a per-item error of the remote API.
pub open spec fn api_error_message(e: TwitterApiError) -> Seq<char> {
    let title = match e.title {
        Some(t) => t@,
        None => "Twitter API error"@,
    };
    let detail = match e.detail {
        Some(d) => d@,
        None => "Unknown error"@,
    };
    title + ": "@ + detail
}

/// The entry recorded for a per-item error of the remote API.
pub open spec fn api_entry(d: ApiErrorDetail, e: TwitterApiError, kind: ErrorKind, endpoint: Option<&str>, now: i64) -> bool {
    &&& d.error_type@ == kind_label(kind)
    &&& d.message@ == api_error_message(e)
    &&& match e.type_ {
        Some(t) => d.code matches Some(v) && v@ == t@,
        None => d.code is None,
    }
    &&& match endpoint {
        Some(p) => d.endpoint matches Some(v) && v@ == p@,
        None => d.endpoint is None,
    }
    &&& d.timestamp == now
}

/// Records a per-item error embedded in a remote answer.
pub fn record_twitter_api_error(
    database: &mut Database,
    state: &mut CycleState,
    kind: ErrorKind,
    api_error: &TwitterApiError,
    endpoint: Option<&str>,
)
    requires
        old(database).wf(),
    ensures
        mirrored(*old(database), *final(database), *old(state), *final(state)),
        final(database).models == old(database).models,
        final(database).wf(),
        final(state).error_details@.len() == old(state).error_details@.len() + 1,
        final(state).error_details@.drop_last() == old(state).error_details@,
        api_entry(final(state).error_details@.last(), *api_error, kind, endpoint, old(state).now),
        final(database).api_errors@.len() == old(database).api_errors@.len() + 1,
        final(database).api_errors@.drop_last() == old(database).api_errors@,
        final(state).tweets_fetched == old(state).tweets_fetched,
        final(state).tweets_queued == old(state).tweets_queued,
        final(state).status == old(state).status,
        final(state).now == old(state).now,
        final(database).tweets == old(database).tweets,
        final(database).jobs == old(database).jobs,
        final(database).checkpoints == old(database).checkpoints,
        final(database).users == old(database).users,
        final(database).models == old(database).models,
        final(database).requests == old(database).requests,
        final(database).runs == old(database).runs,
{
    let mut message = match &api_error.title {
        Some(t) => t.clone(),
        None => "Twitter API error".to_owned(),
    };
    message.append(": ");
    match &api_error.detail {
        Some(d) => message.append(d.as_str()),
        None => message.append("Unknown error"),
    }
    let code: Option<&str> = match &api_error.type_ {
        Some(t) => Some(t.as_str()),
        None => None,
    };
    record_error(database, state, kind, message, code, endpoint);
}


/// The kinds of reanalysis request.
#[derive(Clone, Copy, Debug, PartialEq, Eq, Structural)]
pub enum RequestKind {
    Tweet,
    User,
    All,
    Unknown,
}

/// The kind a request's type label names; `item` and `account` are accepted
/// as other names of `tweet` and `user`.
pub open spec fn request_kind_spec(t: Seq<char>) -> RequestKind {
    if t == "tweet"@ || t == "item"@ {
        RequestKind::Tweet
    } else if t == "user"@ || t == "account"@ {
        RequestKind::User
    } else if t == "all"@ {
        RequestKind::All
    } else {
        RequestKind::Unknown
    }
}

/// The kind of a request's type label.
pub fn request_kind(request_type: &String) -> (r: RequestKind)
    ensures
        r == request_kind_spec(request_type@),
{
    if *request_type == "tweet".to_owned() || *request_type == "item".to_owned() {
        RequestKind::Tweet
    } else if *request_type == "user".to_owned() || *request_type == "account".to_owned() {
        RequestKind::User
    } else if *request_type == "all".to_owned() {
        RequestKind::All
    } else {
        RequestKind::Unknown
    }
}

/// Whether acting on the request succeeds in a store with `n_items` items.
pub open spec fn request_succeeds(r: ReanalysisRequest, n_items: int) -> bool {
    match request_kind_spec(r.request_type@) {
        RequestKind::Tweet => r.tweet_id matches Some(t) && 1 <= t <= n_items,
        RequestKind::User => r.twitter_user_id is Some,
        RequestKind::All => true,
        RequestKind::Unknown => false,
    }
}

/// The kind of the error met when acting on a request fails: a missing item
/// or account id and an unknown type are configuration errors, an unknown
/// item is a store error.
pub open spec fn failure_kind(r: ReanalysisRequest) -> ErrorKind {
    match request_kind_spec(r.request_type@) {
        RequestKind::Tweet => if r.tweet_id is None { ErrorKind::Configuration } else { ErrorKind::Store },
        _ => ErrorKind::Configuration,
    }
}

/// The message recorded when acting on a request fails.
pub open spec fn failure_message(r: ReanalysisRequest) -> Seq<char> {
    "Failed reanalysis request "@ + signed_decimal(r.id as int)
}

/// The entry recorded when acting on a request fails.
pub open spec fn failure_entry(d: ApiErrorDetail, r: ReanalysisRequest, now: i64) -> bool {
    recorded(d, failure_kind(r), failure_message(r), None, None, now)
}

/// The job is one that acting on the request queues.
pub open spec fn request_targets(j: AnalysisJob, r: ReanalysisRequest, rows: Seq<StoredTweet>, models: Seq<i64>) -> bool {
    match request_kind_spec(r.request_type@) {
        RequestKind::Tweet => r.tweet_id matches Some(t) && 1 <= t <= rows.len() && is_target(j, t as int, models),
        RequestKind::User => r.twitter_user_id matches Some(u) && targets_selected(j, rows, rows.len() as int, Some(u), models),
        RequestKind::All => targets_selected(j, rows, rows.len() as int, None, models),
        RequestKind::Unknown => false,
    }
}

/// Claims one request, queues the jobs it asks for, records a failure as a
/// cycle error, and marks the request completed either way.
pub fn process_reanalysis_request(
    database: &mut Database,
    state: &mut CycleState,
    request: &ReanalysisRequest,
    enabled_models: &Vec<i64>,
)
    requires
        old(database).wf(),
    ensures
        mirrored(*old(database), *final(database), *old(state), *final(state)),
        final(database).models == old(database).models,
        final(database).wf(),
        final(database).tweets == old(database).tweets,
        final(database).checkpoints == old(database).checkpoints,
        final(database).users == old(database).users,
        final(database).runs == old(database).runs,
        final(database).jobs@.len() >= old(database).jobs@.len(),
        final(database).jobs@.subrange(0, old(database).jobs@.len() as int) == old(database).jobs@,
        forall|j: AnalysisJob| #[trigger] final(database).jobs@.contains(j) <==> (old(database).jobs@.contains(j)
            || request_targets(j, *request, old(database).tweets@, enabled_models@)),
        statuses_set(old(database).requests@, final(database).requests@, request.id, RequestStatus::Completed),
        request_succeeds(*request, old(database).tweets@.len() as int) ==> final(state).error_details == old(state).error_details,
        !request_succeeds(*request, old(database).tweets@.len() as int) ==> {
            &&& final(state).error_details@.len() == old(state).error_details@.len() + 1
            &&& final(state).error_details@.drop_last() == old(state).error_details@
            &&& failure_entry(final(state).error_details@.last(), *request, old(state).now)
        },
        final(state).tweets_fetched == old(state).tweets_fetched,
        final(state).tweets_queued == old(state).tweets_queued,
        final(state).status == old(state).status,
        final(state).now == old(state).now,
{
    let _ = database.mark_reanalysis_processing(request.id);
    let ghost marked = *database;
    let kind = request_kind(&request.request_type);
    let outcome: Result<u64, CrawlerError> = match kind {
        RequestKind::Tweet => match request.tweet_id {
            Some(t) => database.enqueue_reanalysis_for_tweet(t, enabled_models),
            None => Err(CrawlerError::Config("Missing tweet_id for reanalysis request".to_owned())),
        },
        RequestKind::User => match request.twitter_user_id {
            Some(u) => database.enqueue_reanalysis_for_user(u, enabled_models),
            None => Err(CrawlerError::Config("Missing twitter_user_id for reanalysis request".to_owned())),
        },
        RequestKind::All => database.enqueue_reanalysis_for_all(enabled_models),
        RequestKind::Unknown => {
            let mut message = "Unknown reanalysis request type: ".to_owned();
            message.append(request.request_type.as_str());
            Err(CrawlerError::Config(message))
        },
    };
    proof {
        assert(outcome is Ok <==> request_succeeds(*request, old(database).tweets@.len() as int));
        if outcome is Err {
            assert(kind_of(outcome->Err_0) == failure_kind(*request));
        }
        if outcome is Err {
            assert(database.jobs == old(database).jobs);
            assert(database.jobs@.subrange(0, old(database).jobs@.len() as int) =~= old(database).jobs@);
        }
    }
    let ghost d_pre = *database;
    let ghost s_pre = *state;
    proof {
        lemma_mirror_same(*old(database), d_pre, *old(state), s_pre);
    }
    match outcome {
        Ok(_) => {},
        Err(error) => {
            let k = error_kind(&error);
            let mut message = "Failed reanalysis request ".to_owned();
            message.append(signed_decimal_string(request.id).as_str());
            record_error(database, state, k, message, None, None);
            proof {
                lemma_mirror_step(*old(database), d_pre, *database, *old(state), s_pre, *state);
            }
        },
    }
    let ghost recorded_db = *database;
    let _ = database.mark_reanalysis_completed(request.id);
    proof {
        lemma_mirror_same(recorded_db, *database, *state, *state);
        lemma_mirror_step(*old(database), recorded_db, *database, *old(state), *state, *state);
        assert(statuses_set(old(database).requests@, marked.requests@, request.id, RequestStatus::Processing));
        assert(recorded_db.requests == marked.requests);
        assert forall|i: int| 0 <= i < old(database).requests@.len() implies {
            &&& (#[trigger] database.requests@[i]).request == old(database).requests@[i].request
            &&& database.requests@[i].status == if old(database).requests@[i].request.id == request.id { RequestStatus::Completed } else { old(database).requests@[i].status }
        } by {
            assert(marked.requests@[i].request == old(database).requests@[i].request);
            assert(recorded_db.requests@[i] == marked.requests@[i]);
        }
    }
}

/// The request rows after completing the requests of `handled`.
pub open spec fn completed_all(o: Seq<RequestRow>, n: Seq<RequestRow>, handled: Seq<ReanalysisRequest>) -> bool {
    &&& n.len() == o.len()
    &&& forall|i: int| 0 <= i < o.len() ==> {
        &&& (#[trigger] n[i]).request == o[i].request
        &&& n[i].status == if exists|m: int| 0 <= m < handled.len() && (#[trigger] handled[m]).id == o[i].request.id {
            RequestStatus::Completed
        } else {
            o[i].status
        }
    }
}

/// The job is one that acting on one of the handled requests queues.
pub open spec fn handled_targets(j: AnalysisJob, handled: Seq<ReanalysisRequest>, rows: Seq<StoredTweet>, models: Seq<i64>) -> bool {
    exists|m: int| 0 <= m < handled.len() && request_targets(j, #[trigger] handled[m], rows, models)
}

/// The entries a drain records for the handled requests, in order: one
/// failure entry for each request whose action failed.
pub open spec fn failure_log(log: Seq<ApiErrorDetail>, handled: Seq<ReanalysisRequest>, n_items: int, now: i64) -> bool
    decreases handled.len(),
{
    if handled.len() == 0 {
        log.len() == 0
    } else {
        let r = handled.last();
        if request_succeeds(r, n_items) {
            failure_log(log, handled.drop_last(), n_items, now)
        } else {
            &&& log.len() > 0
            &&& failure_entry(log.last(), r, now)
            &&& failure_log(log.drop_last(), handled.drop_last(), n_items, now)
        }
    }
}

/// The error list after a drain: the old entries, the failure entries of the
/// handled requests, and, when the drain stopped early, the shutdown entry.
pub open spec fn drain_logged(
    before: Seq<ApiErrorDetail>,
    after: Seq<ApiErrorDetail>,
    handled: Seq<ReanalysisRequest>,
    n_items: int,
    now: i64,
    stopped: bool,
) -> bool {
    &&& after.len() >= before.len()
    &&& after.subrange(0, before.len() as int) == before
    &&& if stopped {
        &&& after.len() > before.len()
        &&& recorded(after.last(), ErrorKind::Other, "Shutdown requested"@, None, None, now)
        &&& failure_log(after.subrange(before.len() as int, after.len() - 1), handled, n_items, now)
    } else {
        failure_log(after.subrange(before.len() as int, after.len() as int), handled, n_items, now)
    }
}

/// One step of the reanalysis drain. A shutdown request records its entry
/// and stops the drain, leaving the request untouched; otherwise the request
/// is handled.
pub fn drain_step(
    database: &mut Database,
    state: &mut CycleState,
    request: &ReanalysisRequest,
    enabled_models: &Vec<i64>,
    shutdown_requested: bool,
) -> (stop: bool)
    requires
        old(database).wf(),
    ensures
        mirrored(*old(database), *final(database), *old(state), *final(state)),
        final(database).models == old(database).models,
        stop == shutdown_requested,
        final(database).wf(),
        final(database).tweets == old(database).tweets,
        final(database).checkpoints == old(database).checkpoints,
        final(database).users == old(database).users,
        final(database).runs == old(database).runs,
        final(state).tweets_fetched == old(state).tweets_fetched,
        final(state).tweets_queued == old(state).tweets_queued,
        final(state).now == old(state).now,
        shutdown_requested ==> final(state).status == RunStatus::Failed,
        !shutdown_requested ==> final(state).status == old(state).status,
        shutdown_requested ==> {
            &&& final(database).requests == old(database).requests
            &&& final(database).jobs == old(database).jobs
            &&& final(state).error_details@.len() == old(state).error_details@.len() + 1
            &&& final(state).error_details@.drop_last() == old(state).error_details@
            &&& recorded(final(state).error_details@.last(), ErrorKind::Other, "Shutdown requested"@, None, None, old(state).now)
        },
        !shutdown_requested ==> {
            &&& final(database).jobs@.len() >= old(database).jobs@.len()
            &&& final(database).jobs@.subrange(0, old(database).jobs@.len() as int) == old(database).jobs@
            &&& forall|j: AnalysisJob| #[trigger] final(database).jobs@.contains(j) <==> (old(database).jobs@.contains(j)
                || request_targets(j, *request, old(database).tweets@, enabled_models@))
            &&& statuses_set(old(database).requests@, final(database).requests@, request.id, RequestStatus::Completed)
            &&& (request_succeeds(*request, old(database).tweets@.len() as int) ==> final(state).error_details@
                == old(state).error_details@)
            &&& (!request_succeeds(*request, old(database).tweets@.len() as int) ==> {
                &&& final(state).error_details@.len() == old(state).error_details@.len() + 1
                &&& final(state).error_details@.drop_last() == old(state).error_details@
                &&& failure_entry(final(state).error_details@.last(), *request, old(state).now)
            })
        },
{
    if shutdown_requested {
        state.status = RunStatus::Failed;
        record_error(database, state, ErrorKind::Other, "Shutdown requested".to_owned(), None, None);
        true
    } else {
        process_reanalysis_request(database, state, request, enabled_models);
        false
    }
}

/// The store after handling the first `h` requests of the drained batch.
pub open spec fn drained(before: Database, after: Database, h: int, models: Seq<i64>) -> bool {
    let batch = first_pending(before.requests@, REANALYSIS_BATCH);
    let handled = batch.take(h);
    &&& 0 <= h <= batch.len()
    &&& completed_all(before.requests@, after.requests@, handled)
    &&& forall|j: AnalysisJob| #[trigger] after.jobs@.contains(j) <==> (before.jobs@.contains(j)
        || handled_targets(j, handled, before.tweets@, models))
}

/// Drains up to a batch of pending reanalysis requests, oldest first: each
/// handled request has its jobs queued and is marked completed. A shutdown
/// request stops the drain early with an error entry and marks the cycle
/// failed, so the handled requests are a prefix of the batch.
pub fn process_reanalysis_requests(
    database: &mut Database,
    state: &mut CycleState,
    enabled_models: &Vec<i64>,
    shutdown: &AtomicBool,
) -> (r: Result<(), CrawlerError>)
    requires
        old(database).wf(),
    ensures
        mirrored(*old(database), *final(database), *old(state), *final(state)),
        final(database).models == old(database).models,
        r is Ok,
        final(database).wf(),
        final(database).tweets == old(database).tweets,
        final(database).checkpoints == old(database).checkpoints,
        final(database).users == old(database).users,
        final(database).runs == old(database).runs,
        final(database).jobs@.len() >= old(database).jobs@.len(),
        final(database).jobs@.subrange(0, old(database).jobs@.len() as int) == old(database).jobs@,
        exists|h: int| #[trigger] drained(*old(database), *final(database), h, enabled_models@) && drain_logged(
            old(state).error_details@,
            final(state).error_details@,
            first_pending(old(database).requests@, REANALYSIS_BATCH).take(h),
            old(database).tweets@.len() as int,
            old(state).now,
            h < first_pending(old(database).requests@, REANALYSIS_BATCH).len(),
        ) && final(state).status == (if h < first_pending(old(database).requests@, REANALYSIS_BATCH).len() {
            RunStatus::Failed
        } else {
            old(state).status
        }),
        final(state).tweets_fetched == old(state).tweets_fetched,
        final(state).tweets_queued == old(state).tweets_queued,
        final(state).now == old(state).now,
{
    let requests = match database.load_pending_reanalysis_requests(REANALYSIS_BATCH) {
        Ok(v) => v,
        Err(_) => {
            proof {
                assert(false);
            }
            return Ok(());
        },
    };
    let ghost batch = requests@;
    let ghost log_start = state.error_details@.len() as int;
    let ghost n_items = database.tweets@.len() as int;
    let mut i: usize = 0;
    let mut stopped = false;
    proof {
        assert(state.error_details@.subrange(0, log_start) =~= state.error_details@);
        lemma_mirror_same(*old(database), *database, *old(state), *state);
        assert(state.error_details@.subrange(log_start, log_start) =~= Seq::<ApiErrorDetail>::empty());
        assert(batch.take(0) =~= Seq::<ReanalysisRequest>::empty());
        assert(database.jobs@.subrange(0, old(database).jobs@.len() as int) =~= old(database).jobs@);
    }
    while i < requests.len()
        invariant_except_break
            !stopped,
            state.status == old(state).status,
            failure_log(state.error_details@.subrange(log_start, state.error_details@.len() as int), batch.take(i as int), n_items, state.now),
        invariant
            0 <= i <= requests@.len(),
            batch == requests@,
            batch == first_pending(old(database).requests@, REANALYSIS_BATCH),
            database.wf(),
            mirrored(*old(database), *database, *old(state), *state),
            database.models == old(database).models,
            database.tweets == old(database).tweets,
            database.checkpoints == old(database).checkpoints,
            database.users == old(database).users,
            database.runs == old(database).runs,
            completed_all(old(database).requests@, database.requests@, batch.take(i as int)),
            database.jobs@.len() >= old(database).jobs@.len(),
            database.jobs@.subrange(0, old(database).jobs@.len() as int) == old(database).jobs@,
            forall|j: AnalysisJob| #[trigger] database.jobs@.contains(j) <==> (old(database).jobs@.contains(j)
                || handled_targets(j, batch.take(i as int), old(database).tweets@, enabled_models@)),
            state.tweets_fetched == old(state).tweets_fetched,
            state.tweets_queued == old(state).tweets_queued,
            state.now == old(state).now,
            log_start == old(state).error_details@.len(),
            n_items == old(database).tweets@.len(),
            state.error_details@.len() >= log_start,
            state.error_details@.subrange(0, log_start) == old(state).error_details@,
        ensures
            stopped ==> state.status == RunStatus::Failed,
            !stopped ==> state.status == old(state).status,
            stopped ==> i < batch.len() && drain_logged(old(state).error_details@, state.error_details@, batch.take(i as int), n_items, old(state).now, true),
            !stopped ==> i == batch.len() && failure_log(state.error_details@.subrange(log_start, state.error_details@.len() as int), batch.take(i as int), n_items, state.now),
        decreases requests@.len() - i,
    {
        let ghost before = *database;
        let ghost log_before = state.error_details@;
        let ghost s_b = *state;
        if drain_step(database, state, &requests[i], enabled_models, shutdown.load(Ordering::SeqCst)) {
            stopped = true;
            proof {
                lemma_mirror_step(*old(database), before, *database, *old(state), s_b, *state);
                assert(state.error_details@.drop_last() == log_before);
                assert(state.error_details@.subrange(0, log_start) =~= log_before.subrange(0, log_start));
                assert(state.error_details@.subrange(log_start, state.error_details@.len() - 1) =~= log_before.subrange(log_start, log_before.len() as int));
                assert(drained(*old(database), *database, i as int, enabled_models@));
                assert(drain_logged(old(state).error_details@, state.error_details@, batch.take(i as int), n_items, old(state).now, true));
            }
            break;
        }
        proof {
            lemma_mirror_step(*old(database), before, *database, *old(state), s_b, *state);
            let req = batch[i as int];
            let hs = batch.take(i + 1);
            assert(hs.drop_last() =~= batch.take(i as int));
            assert(hs.last() == req);
            let new_log = state.error_details@.subrange(log_start, state.error_details@.len() as int);
            let old_log = log_before.subrange(log_start, log_before.len() as int);
            if request_succeeds(req, n_items) {
                assert(new_log =~= old_log);
                assert(state.error_details@.subrange(0, log_start) =~= log_before.subrange(0, log_start));
            } else {
                assert(new_log.drop_last() =~= old_log);
                assert(new_log.last() == state.error_details@.last());
                assert(state.error_details@.subrange(0, log_start) =~= log_before.subrange(0, log_start));
            }
            assert(failure_log(new_log, hs, n_items, state.now));
        }
        proof {
            let prev = batch.take(i as int);
            let next = batch.take(i + 1);
            let req = batch[i as int];
            assert(next =~= prev.push(req));
            assert(database.jobs@.subrange(0, old(database).jobs@.len() as int) =~= before.jobs@.subrange(0, old(database).jobs@.len() as int));
            assert forall|k: int| 0 <= k < old(database).requests@.len() implies {
                &&& (#[trigger] database.requests@[k]).request == old(database).requests@[k].request
                &&& database.requests@[k].status == if exists|m: int| 0 <= m < next.len() && (#[trigger] next[m]).id == old(database).requests@[k].request.id {
                    RequestStatus::Completed
                } else {
                    old(database).requests@[k].status
                }
            } by {
                assert(before.requests@[k].request == old(database).requests@[k].request);
                let id = old(database).requests@[k].request.id;
                if exists|m: int| 0 <= m < next.len() && (#[trigger] next[m]).id == id {
                    let m = choose|m: int| 0 <= m < next.len() && (#[trigger] next[m]).id == id;
                    if m < prev.len() {
                        assert(prev[m] == next[m]);
                    }
                } else {
                    assert(!(exists|m: int| 0 <= m < prev.len() && (#[trigger] prev[m]).id == id)) by {
                        if exists|m: int| 0 <= m < prev.len() && (#[trigger] prev[m]).id == id {
                            let m = choose|m: int| 0 <= m < prev.len() && (#[trigger] prev[m]).id == id;
                            assert(next[m] == prev[m]);
                        }
                    }
                    assert(next[prev.len() as int] == req);
                }
            }
            assert forall|j: AnalysisJob| #[trigger] database.jobs@.contains(j) <==> (old(database).jobs@.contains(j)
                || handled_targets(j, next, old(database).tweets@, enabled_models@)) by {
                if handled_targets(j, next, old(database).tweets@, enabled_models@) {
                    let m = choose|m: int| 0 <= m < next.len() && request_targets(j, #[trigger] next[m], old(database).tweets@, enabled_models@);
                    if m < prev.len() {
                        assert(prev[m] == next[m]);
                        assert(handled_targets(j, prev, old(database).tweets@, enabled_models@));
                    }
                }
                if handled_targets(j, prev, old(database).tweets@, enabled_models@) {
                    let m = choose|m: int| 0 <= m < prev.len() && request_targets(j, #[trigger] prev[m], old(database).tweets@, enabled_models@);
                    assert(next[m] == prev[m]);
                }
                if request_targets(j, req, old(database).tweets@, enabled_models@) {
                    assert(next[prev.len() as int] == req);
                }
            }
        }
        i = i + 1;
    }
    proof {
        assert(drained(*old(database), *database, i as int, enabled_models@));
        if !stopped {
            assert(drain_logged(old(state).error_details@, state.error_details@, batch.take(i as int), n_items, old(state).now, false));
        }
    }
    Ok(())
}

/// Some profile of the answer carries the handle.
pub open spec fn has_profile(profiles: Seq<TwitterApiUser>, username: Seq<char>) -> bool {
    exists|k: int| 0 <= k < profiles.len() && (#[trigger] profiles[k]).username@ == username
}

/// The stored checkpoint of an account.
pub open spec fn checkpoint_of(database: Database, id: i64) -> Option<i64> {
    if database.checkpoints@.contains_key(id) {
        Some(database.checkpoints@[id])
    } else {
        None
    }
}

/// The index of the last profile that carries the handle (a later profile
/// of the same handle replaces an earlier one).
pub fn find_profile(profiles: &Vec<TwitterApiUser>, username: &String) -> (r: Option<usize>)
    ensures
        r is None <==> !has_profile(profiles@, username@),
        r matches Some(k) ==> k < profiles@.len() && profiles@[k as int].username@ == username@
            && forall|m: int| k < m < profiles@.len() ==> (#[trigger] profiles@[m]).username@ != username@,
{
    let mut i: usize = profiles.len();
    while i > 0
        invariant
            0 <= i <= profiles@.len(),
            forall|m: int| i <= m < profiles@.len() ==> (#[trigger] profiles@[m]).username@ != username@,
        decreases i,
    {
        i = i - 1;
        if profiles[i].username == *username {
            return Some(i);
        }
    }
    None
}

/// A stored account row after a refresh from a profile: rows of other
/// handles are unchanged; the matching row takes the profile's id and name,
/// and its avatar and counters where the profile has them.
pub open spec fn refreshed(o: UserRow, n: UserRow, p: TwitterApiUser) -> bool {
    if o.username@ == p.username@ {
        &&& n.id == o.id
        &&& n.username == o.username
        &&& n.is_active == o.is_active
        &&& n.twitter_id@ == p.id@
        &&& n.display_name@ == p.name@
        &&& match p.profile_image_url {
            Some(a) => n.avatar_url matches Some(v) && v@ == a@,
            None => n.avatar_url == o.avatar_url,
        }
        &&& n.follower_count == match p.public_metrics {
            Some(m) => if m.followers_count is Some { m.followers_count } else { o.follower_count },
            None => o.follower_count,
        }
        &&& n.following_count == match p.public_metrics {
            Some(m) => if m.following_count is Some { m.following_count } else { o.following_count },
            None => o.following_count,
        }
    } else {
        n == o
    }
}

/// A fetch the controller asks for: the account's item feed from `start_time` on.
pub struct FetchRequest {
    pub twitter_user_id: i64,
    pub twitter_id: String,
    pub username: String,
    pub start_time: i64,
}

/// The walk over the active accounts of one cycle, in account-list order.
pub struct AccountPass {
    pub users: Vec<TrackedUser>,
    pub profiles: Vec<TwitterApiUser>,
    /// Index of the account being processed; the pass is over when it reaches
    /// the end of the list.
    pub next: usize,
    pub floor: i64,
}

/// The checkpoint after a fetch whose latest item time is `t`: the later of
/// the stored checkpoint and `t`, so that it never moves backward.
pub open spec fn advanced(stored: Option<i64>, t: i64) -> i64 {
    match stored {
        Some(c) => if c > t { c } else { t },
        None => t,
    }
}

/// The counter after adding, held at the largest value.
pub open spec fn add_capped(a: u64, b: int) -> u64 {
    if a + b <= u64::MAX { (a + b) as u64 } else { u64::MAX }
}

fn add_counts(a: u64, b: u64) -> (r: u64)
    ensures
        r == add_capped(a, b as int),
{
    if b <= u64::MAX - a { a + b } else { u64::MAX }
}

/// Records every per-item error of an answer as an `api_change` error.
fn record_partial_errors(
    database: &mut Database,
    state: &mut CycleState,
    errors: &Vec<TwitterApiError>,
    endpoint: &str,
)
    requires
        old(database).wf(),
    ensures
        mirrored(*old(database), *final(database), *old(state), *final(state)),
        final(database).models == old(database).models,
        final(database).wf(),
        final(state).error_details@.len() == old(state).error_details@.len() + errors@.len(),
        final(state).error_details@.subrange(0, old(state).error_details@.len() as int) == old(state).error_details@,
        forall|m: int| 0 <= m < errors@.len() ==> api_entry(
            #[trigger] final(state).error_details@[old(state).error_details@.len() + m],
            errors@[m],
            ErrorKind::ApiChange,
            Some(endpoint),
            old(state).now,
        ),
        final(state).tweets_fetched == old(state).tweets_fetched,
        final(state).tweets_queued == old(state).tweets_queued,
        final(state).status == old(state).status,
        final(state).now == old(state).now,
        final(database).tweets == old(database).tweets,
        final(database).jobs == old(database).jobs,
        final(database).checkpoints == old(database).checkpoints,
        final(database).users == old(database).users,
        final(database).models == old(database).models,
        final(database).requests == old(database).requests,
        final(database).runs == old(database).runs,
{
    let mut i: usize = 0;
    proof {
        assert(state.error_details@.subrange(0, old(state).error_details@.len() as int) =~= state.error_details@);
        lemma_mirror_same(*old(database), *database, *old(state), *state);
    }
    while i < errors.len()
        invariant
            0 <= i <= errors@.len(),
            database.wf(),
            mirrored(*old(database), *database, *old(state), *state),
            state.error_details@.len() == old(state).error_details@.len() + i,
            state.error_details@.subrange(0, old(state).error_details@.len() as int) == old(state).error_details@,
            forall|m: int| 0 <= m < i ==> api_entry(
                #[trigger] state.error_details@[old(state).error_details@.len() + m],
                errors@[m],
                ErrorKind::ApiChange,
                Some(endpoint),
                old(state).now,
            ),
            state.tweets_fetched == old(state).tweets_fetched,
            state.tweets_queued == old(state).tweets_queued,
            state.status == old(state).status,
            state.now == old(state).now,
            database.tweets == old(database).tweets,
            database.jobs == old(database).jobs,
            database.checkpoints == old(database).checkpoints,
            database.users == old(database).users,
            database.models == old(database).models,
            database.requests == old(database).requests,
            database.runs == old(database).runs,
        decreases errors@.len() - i,
    {
        let ghost before = state.error_details@;
        let ghost d_b = *database;
        let ghost s_b = *state;
        record_twitter_api_error(database, state, ErrorKind::ApiChange, &errors[i], Some(endpoint));
        proof {
            lemma_mirror_step(*old(database), d_b, *database, *old(state), s_b, *state);
            assert(state.error_details@.subrange(0, old(state).error_details@.len() as int) =~= before.subrange(0, old(state).error_details@.len() as int));
            assert forall|m: int| 0 <= m < i + 1 implies api_entry(
                #[trigger] state.error_details@[old(state).error_details@.len() + m],
                errors@[m],
                ErrorKind::ApiChange,
                Some(endpoint),
                old(state).now,
            ) by {
                if m < i {
                    assert(state.error_details@[old(state).error_details@.len() + m] == before[old(state).error_details@.len() + m]);
                }
            }
        }
        i = i + 1;
    }
}

impl AccountPass {
    /// Starts the pass: records the per-item errors of the profile answer.
    pub fn begin(
        database: &mut Database,
        state: &mut CycleState,
        users: Vec<TrackedUser>,
        response: TwitterUsersResponse,
        floor: i64,
    ) -> (r: AccountPass)
        requires
            old(database).wf(),
        ensures
            mirrored(*old(database), *final(database), *old(state), *final(state)),
            final(database).models == old(database).models,
            final(database).wf(),
            r.users == users,
            r.profiles@ == entries(response.data),
            r.next == 0,
            r.floor == floor,
            final(state).error_details@.len() == old(state).error_details@.len() + entries(response.errors).len(),
            final(state).error_details@.subrange(0, old(state).error_details@.len() as int) == old(state).error_details@,
            forall|m: int| 0 <= m < entries(response.errors).len() ==> api_entry(
                #[trigger] final(state).error_details@[old(state).error_details@.len() + m],
                entries(response.errors)[m],
                ErrorKind::ApiChange,
                Some(USERS_ENDPOINT),
                old(state).now,
            ),
            final(state).tweets_fetched == old(state).tweets_fetched,
            final(state).tweets_queued == old(state).tweets_queued,
            final(state).status == old(state).status,
            final(state).now == old(state).now,
            final(database).tweets == old(database).tweets,
            final(database).jobs == old(database).jobs,
            final(database).checkpoints == old(database).checkpoints,
            final(database).users == old(database).users,
            final(database).models == old(database).models,
            final(database).requests == old(database).requests,
            final(database).runs == old(database).runs,
    {
        match &response.errors {
            Some(errors) => record_partial_errors(database, state, errors, USERS_ENDPOINT),
            None => {
                proof {
                    assert(state.error_details@.subrange(0, old(state).error_details@.len() as int) =~= state.error_details@);
                    lemma_mirror_same(*old(database), *database, *old(state), *state);
                }
            },
        }
        let profiles = match response.data {
            Some(p) => p,
            None => Vec::new(),
        };
        AccountPass { users, profiles, next: 0, floor }
    }

    fn advance(&mut self)
        requires
            old(self).next < old(self).users@.len(),
        ensures
            final(self).next == old(self).next + 1,
            final(self).users == old(self).users,
            final(self).profiles == old(self).profiles,
            final(self).floor == old(self).floor,
    {
        if self.next < self.users.len() {
            self.next = self.next + 1;
        }
    }

    /// Whether every account has been processed.
    pub fn is_finished(&self) -> (r: bool)
        ensures
            r == (self.next >= self.users@.len()),
    {
        self.next >= self.users.len()
    }

    /// Moves to the next account that can be fetched: accounts absent from
    /// the profile answer are recorded and skipped; the one found has its
    /// profile refreshed and its fetch window planned. A shutdown request
    /// ends the pass with a failed status.
    pub fn next_fetch(
        &mut self,
        database: &mut Database,
        state: &mut CycleState,
        shutdown_requested: bool,
    ) -> (r: Option<FetchRequest>)
        requires
            old(database).wf(),
        ensures
            mirrored(*old(database), *final(database), *old(state), *final(state)),
            final(database).models == old(database).models,
            final(database).wf(),
            final(self).users == old(self).users,
            final(self).profiles == old(self).profiles,
            final(self).floor == old(self).floor,
            final(database).tweets == old(database).tweets,
            final(database).jobs == old(database).jobs,
            final(database).checkpoints == old(database).checkpoints,
            final(database).requests == old(database).requests,
            final(database).runs == old(database).runs,
            final(database).users@.len() == old(database).users@.len(),
            final(state).tweets_fetched == old(state).tweets_fetched,
            final(state).tweets_queued == old(state).tweets_queued,
            final(state).now == old(state).now,
            r is None ==> final(self).next >= final(self).users@.len(),
            r is None && old(self).next < old(self).users@.len() ==> final(self).next == final(self).users@.len(),
            shutdown_requested && old(self).next < old(self).users@.len() ==> {
                &&& r is None
                &&& final(self).next == final(self).users@.len()
                &&& final(state).status == RunStatus::Failed
                &&& final(state).error_details@.len() == old(state).error_details@.len() + 1
                &&& final(state).error_details@.drop_last() == old(state).error_details@
                &&& recorded(final(state).error_details@.last(), ErrorKind::Other, "Shutdown requested"@, None, None, old(state).now)
            },
            old(self).next >= old(self).users@.len() ==> r is None && final(self).next
                == old(self).next && final(state).error_details@ == old(state).error_details@
                && final(state).status == old(state).status,
            r is None ==> final(database).users == old(database).users,
            !shutdown_requested ==> {
                &&& final(state).status == old(state).status
                &&& old(self).next <= final(self).next
                &&& (r is None <==> forall|k: int| old(self).next <= k < final(self).users@.len() ==> !has_profile(
                    final(self).profiles@,
                    (#[trigger] final(self).users@[k]).username@,
                ))
                &&& final(state).error_details@.len() == old(state).error_details@.len() + (final(self).next - old(self).next)
                &&& final(state).error_details@.subrange(0, old(state).error_details@.len() as int) == old(state).error_details@
                &&& forall|m: int| 0 <= m < final(self).next - old(self).next ==> recorded(
                    #[trigger] final(state).error_details@[old(state).error_details@.len() + m],
                    ErrorKind::ApiChange,
                    "Twitter user not found: @"@ + final(self).users@[old(self).next + m].username@,
                    None,
                    Some(USERS_ENDPOINT),
                    old(state).now,
                )
            },
            r matches Some(req) ==> {
                let u = final(self).users@[final(self).next as int];
                &&& old(self).next <= final(self).next < final(self).users@.len()
                &&& final(state).status == old(state).status
                &&& req.twitter_user_id == u.id
                &&& req.username@ == u.username@
                &&& has_profile(final(self).profiles@, u.username@)
                &&& req.start_time == planned_start(checkpoint_of(*old(database), u.id), old(self).floor)
                &&& exists|k: int| 0 <= k < final(self).profiles@.len()
                    && (#[trigger] final(self).profiles@[k]).username@ == u.username@
                    && req.twitter_id@ == final(self).profiles@[k].id@
                    && forall|i: int| 0 <= i < old(database).users@.len() ==> refreshed(
                        #[trigger] old(database).users@[i],
                        final(database).users@[i],
                        final(self).profiles@[k],
                    )
                &&& forall|k: int| old(self).next <= k < final(self).next ==> !has_profile(
                    final(self).profiles@,
                    (#[trigger] final(self).users@[k]).username@,
                )
            },
    {
        if shutdown_requested && self.next < self.users.len() {
            state.status = RunStatus::Failed;
            let ghost s_call = *state;
            record_error(database, state, ErrorKind::Other, "Shutdown requested".to_owned(), None, None);
            proof {
                lemma_mirror_same(*old(database), *old(database), *old(state), s_call);
                lemma_mirror_step(*old(database), *old(database), *database, *old(state), s_call, *state);
            }
            self.next = self.users.len();
            return None;
        }
        let ghost log_start = state.error_details@.len();
        proof {
            assert(state.error_details@.subrange(0, log_start as int) =~= state.error_details@);
            lemma_mirror_same(*old(database), *database, *old(state), *state);
        }
        while self.next < self.users.len()
            invariant
                !shutdown_requested || self.next >= self.users@.len(),
                mirrored(*old(database), *database, *old(state), *state),
                database.models == old(database).models,
                database.api_errors@.len() >= old(database).api_errors@.len(),
                self.next == old(self).next || self.next <= self.users@.len(),
                log_start == old(state).error_details@.len(),
                state.error_details@.len() == log_start + (self.next - old(self).next),
                state.error_details@.subrange(0, log_start as int) == old(state).error_details@,
                forall|m: int| 0 <= m < self.next - old(self).next ==> recorded(
                    #[trigger] state.error_details@[log_start + m],
                    ErrorKind::ApiChange,
                    "Twitter user not found: @"@ + self.users@[old(self).next + m].username@,
                    None,
                    Some(USERS_ENDPOINT),
                    old(state).now,
                ),
                database.wf(),
                self.users == old(self).users,
                self.profiles == old(self).profiles,
                self.floor == old(self).floor,
                old(self).next <= self.next,
                database.tweets == old(database).tweets,
                database.jobs == old(database).jobs,
                database.checkpoints == old(database).checkpoints,
                database.requests == old(database).requests,
                database.runs == old(database).runs,
                database.users == old(database).users,
                state.tweets_fetched == old(state).tweets_fetched,
                state.tweets_queued == old(state).tweets_queued,
                state.status == old(state).status,
                state.now == old(state).now,
                forall|k: int| old(self).next <= k < self.next ==> !has_profile(
                    self.profiles@,
                    (#[trigger] self.users@[k]).username@,
                ),
            decreases self.users@.len() - self.next,
        {
            let idx = self.next;
            match find_profile(&self.profiles, &self.users[idx].username) {
                None => {
                    let mut message = "Twitter user not found: @".to_owned();
                    message.append(self.users[idx].username.as_str());
                    let ghost before = state.error_details@;
                    let ghost d_b = *database;
                    let ghost s_b = *state;
                    record_error(database, state, ErrorKind::ApiChange, message, None, Some(USERS_ENDPOINT));
                    self.next = idx + 1;
                    proof {
                        lemma_mirror_step(*old(database), d_b, *database, *old(state), s_b, *state);
                        assert(state.error_details@.subrange(0, log_start as int) =~= before.subrange(0, log_start as int));
                        assert forall|m: int| 0 <= m < self.next - old(self).next implies recorded(
                            #[trigger] state.error_details@[log_start + m],
                            ErrorKind::ApiChange,
                            "Twitter user not found: @"@ + self.users@[old(self).next + m].username@,
                            None,
                            Some(USERS_ENDPOINT),
                            old(state).now,
                        ) by {
                            if m < idx - old(self).next {
                                assert(state.error_details@[log_start + m] == before[log_start + m]);
                            }
                        }
                    }
                },
                Some(k) => {
                    let profile = &self.profiles[k];
                    let user = &self.users[idx];
                    let (followers, following) = match profile.public_metrics {
                        Some(m) => (m.followers_count, m.following_count),
                        None => (None, None),
                    };
                    let avatar: Option<&str> = match &profile.profile_image_url {
                        Some(a) => Some(a.as_str()),
                        None => None,
                    };
                    let name: &str = profile.name.as_str();
                    let ghost d_u = *database;
                    let _ = database.update_user_from_api(
                        user.username.as_str(),
                        profile.id.as_str(),
                        Some(name),
                        avatar,
                        followers,
                        following,
                    );
                    let checkpoint = match database.get_checkpoint(user.id) {
                        Ok(c) => c,
                        Err(_) => None,
                    };
                    let start_time = plan_start_time(checkpoint, self.floor);
                    proof {
                        lemma_mirror_same(d_u, *database, *state, *state);
                        lemma_mirror_step(*old(database), d_u, *database, *old(state), *state, *state);
                        assert(profile.username@ == user.username@);
                        let pk = self.profiles@[k as int];
                        assert forall|i: int| 0 <= i < old(database).users@.len() implies refreshed(
                            #[trigger] old(database).users@[i],
                            database.users@[i],
                            pk,
                        ) by {
                            assert(profile_updated(
                                old(database).users@[i],
                                database.users@[i],
                                user.username@,
                                profile.id@,
                                Some(name),
                                avatar,
                                followers,
                                following,
                            ));
                        }
                    }
                    return Some(FetchRequest {
                        twitter_user_id: user.id,
                        twitter_id: profile.id.clone(),
                        username: user.username.clone(),
                        start_time,
                    });
                },
            }
        }
        proof {
            if self.next == old(self).next {
                assert(state.error_details@ =~= old(state).error_details@.subrange(0, log_start as int));
            }
        }
        None
    }

    /// Applies the outcome of the current account's fetch. A whole-call
    /// error is recorded; an authentication or rate-limit error aborts the
    /// pass (and is returned), any other one skips the account. On success
    /// the per-item errors are recorded, the items ingested, the counters
    /// advanced, and the checkpoint moved to the latest item time seen.
    pub fn on_fetch_result(
        &mut self,
        database: &mut Database,
        state: &mut CycleState,
        request: &FetchRequest,
        result: Result<TweetFetchResult, CrawlerError>,
        enabled_models: &Vec<i64>,
    ) -> (r: Result<(), CrawlerError>)
        requires
            old(database).wf(),
            old(self).next < old(self).users@.len(),
        ensures
            mirrored(*old(database), *final(database), *old(state), *final(state)),
            final(database).models == old(database).models,
            final(database).wf(),
            final(self).users == old(self).users,
            final(self).profiles == old(self).profiles,
            final(self).floor == old(self).floor,
            final(state).now == old(state).now,
            final(database).requests == old(database).requests,
            final(database).users == old(database).users,
            final(database).runs == old(database).runs,
            r is Ok ==> final(self).next == old(self).next + 1 && final(state).status == old(state).status,
            r is Err ==> final(self).next == final(self).users@.len() && final(state).status == RunStatus::Failed,
            result matches Err(e) ==> {
                &&& (r is Err <==> aborts_cycle(kind_of(e)))
                &&& (aborts_cycle(kind_of(e)) ==> r == Err::<(), CrawlerError>(e))
                &&& final(state).error_details@.len() == old(state).error_details@.len() + 1
                &&& final(state).error_details@.drop_last() == old(state).error_details@
                &&& recorded(
                    final(state).error_details@.last(),
                    kind_of(e),
                    "Failed fetching tweets for @"@ + request.username@,
                    None,
                    Some(TWEETS_ENDPOINT),
                    old(state).now,
                )
                &&& final(database).tweets == old(database).tweets
                &&& final(database).jobs == old(database).jobs
                &&& final(database).checkpoints == old(database).checkpoints
                &&& final(state).tweets_fetched == old(state).tweets_fetched
                &&& final(state).tweets_queued == old(state).tweets_queued
            },
            result matches Ok(res) ==> {
                &&& (old(database).tweets@.len() + res.tweets@.len() <= ROW_LIMIT <==> r is Ok)
                &&& (r is Err ==> (r matches Err(CrawlerError::Database(_)) && final(database).tweets
                    == old(database).tweets && final(database).jobs == old(database).jobs
                    && final(database).checkpoints == old(database).checkpoints))
                &&& final(state).error_details@.len() == old(state).error_details@.len() + res.errors@.len()
                &&& final(state).error_details@.subrange(0, old(state).error_details@.len() as int) == old(state).error_details@
                &&& forall|m: int| 0 <= m < res.errors@.len() ==> api_entry(
                    #[trigger] final(state).error_details@[old(state).error_details@.len() + m],
                    res.errors@[m],
                    ErrorKind::ApiChange,
                    Some(TWEETS_ENDPOINT),
                    old(state).now,
                )
                &&& (r is Ok ==> {
                    &&& ingested(*old(database), *final(database), request.twitter_user_id, res.tweets@, enabled_models@)
                    &&& final(state).tweets_fetched == add_capped(
                        old(state).tweets_fetched,
                        new_items(old(database).tweets@, res.tweets@).len() as int,
                    )
                    &&& final(state).tweets_queued == add_capped(
                        old(state).tweets_queued,
                        final(database).jobs@.len() - old(database).jobs@.len(),
                    )
                    &&& final(database).checkpoints@ == match max_created(res.tweets@) {
                        Some(t) => old(database).checkpoints@.insert(
                            request.twitter_user_id,
                            advanced(checkpoint_of(*old(database), request.twitter_user_id), t),
                        ),
                        None => old(database).checkpoints@,
                    }
                })
            },
    {
        match result {
            Err(error) => {
                let kind = error_kind(&error);
                let mut message = "Failed fetching tweets for @".to_owned();
                message.append(request.username.as_str());
                record_error(database, state, kind, message, None, Some(TWEETS_ENDPOINT));
                if should_abort_on_error(&error) {
                    state.status = RunStatus::Failed;
                    self.next = self.users.len();
                    return Err(error);
                }
                self.advance();
                Ok(())
            },
            Ok(fetched) => {
                record_partial_errors(database, state, &fetched.errors, TWEETS_ENDPOINT);
                let ghost recorded_db = *database;
                match database.insert_tweets_and_enqueue(request.twitter_user_id, &fetched.tweets, enabled_models) {
                    Err(error) => {
                        state.status = RunStatus::Failed;
                        self.next = self.users.len();
                        Err(error)
                    },
                    Ok((inserted, enqueued, latest)) => {
                        state.tweets_fetched = add_counts(state.tweets_fetched, inserted);
                        state.tweets_queued = add_counts(state.tweets_queued, enqueued);
                        let ghost ingested_db = *database;
                        match latest {
                            Some(ts) => {
                                let stored = match database.get_checkpoint(request.twitter_user_id) {
                                    Ok(c) => c,
                                    Err(_) => None,
                                };
                                let next = match stored {
                                    Some(c) => if c > ts { c } else { ts },
                                    None => ts,
                                };
                                let _ = database.set_checkpoint(request.twitter_user_id, next);
                            },
                            None => {},
                        }
                        proof {
                            assert(ingested(recorded_db, ingested_db, request.twitter_user_id, fetched.tweets@, enabled_models@));
                        }
                        self.advance();
                        Ok(())
                    },
                }
            },
        }
    }
}

/// Closes the cycle: a cycle-level error marks it failed and is recorded;
/// the run record then gets the status, the counters and every error met.
/// The cycle's outcome is passed on.
pub fn finish_cycle(
    database: &mut Database,
    state: &mut CycleState,
    run_id: i64,
    outcome: Result<(), CrawlerError>,
) -> (r: Result<(), CrawlerError>)
    requires
        old(database).wf(),
    ensures
        mirrored(*old(database), *final(database), *old(state), *final(state)),
        final(database).models == old(database).models,
        final(database).wf(),
        r == outcome,
        outcome is Err ==> final(state).status == RunStatus::Failed,
        outcome matches Err(e) ==> {
            &&& final(state).error_details@.drop_last() == old(state).error_details@
            &&& recorded(
                final(state).error_details@.last(),
                kind_of(e),
                "Crawler cycle error: "@ + description(e),
                None,
                None,
                old(state).now,
            )
        },
        outcome is Ok ==> final(state).status == old(state).status,
        outcome is Ok ==> final(state).error_details == old(state).error_details,
        outcome is Err ==> final(state).error_details@.len() == old(state).error_details@.len() + 1,
        final(database).tweets == old(database).tweets,
        final(database).jobs == old(database).jobs,
        final(database).checkpoints == old(database).checkpoints,
        final(database).runs@.len() == old(database).runs@.len(),
        1 <= run_id <= old(database).runs@.len() ==> {
            let run = final(database).runs@[run_id - 1];
            &&& run.id == run_id
            &&& run.status == final(state).status
            &&& run.tweets_fetched == old(state).tweets_fetched
            &&& run.tweets_analyzed == old(state).tweets_queued
            &&& run.errors_count == final(state).error_details@.len() as u64
            &&& run.error_details@ == final(state).error_details@
        },
{
    match &outcome {
        Ok(()) => {
            let _ = database.complete_crawler_run(run_id, state.status, state.tweets_fetched, state.tweets_queued, &state.error_details);
            proof {
                lemma_mirror_same(*old(database), *database, *old(state), *state);
            }
        },
        Err(error) => {
            state.status = RunStatus::Failed;
            let ghost s_call = *state;
            let kind = error_kind(error);
            let mut message = "Crawler cycle error: ".to_owned();
            message.append(error.describe().as_str());
            record_error(database, state, kind, message, None, None);
            let ghost d_r = *database;
            let _ = database.complete_crawler_run(run_id, state.status, state.tweets_fetched, state.tweets_queued, &state.error_details);
            proof {
                lemma_mirror_same(*old(database), *old(database), *old(state), s_call);
                lemma_mirror_step(*old(database), *old(database), d_r, *old(state), s_call, *state);
                lemma_mirror_same(d_r, *database, *state, *state);
                lemma_mirror_step(*old(database), d_r, *database, *old(state), *state, *state);
            }
        },
    }
    outcome
}


/// The checkpoint never moves backward: after a fetch the stored value is at
/// least the one stored before, whatever items the fetch returned, and at
/// least the latest of those items.
pub proof fn lemma_checkpoint_never_regresses(stored: Option<i64>, latest: i64)
    ensures
        stored matches Some(c) ==> advanced(stored, latest) >= c,
        advanced(stored, latest) >= latest,
{
}

/// Abort policy: an authentication failure (HTTP 401) or a server-side rate
/// limit (HTTP 429) ends the cycle's account loop, while a generic HTTP error
/// or a transport failure only skips the account.
pub proof fn lemma_abort_policy(e: CrawlerError)
    ensures
        e is Authentication ==> aborts_cycle(kind_of(e)),
        e is RateLimitExceeded ==> aborts_cycle(kind_of(e)),
        e is HttpStatus ==> !aborts_cycle(kind_of(e)),
        e is Network ==> !aborts_cycle(kind_of(e)),
        e is TwitterApi ==> !aborts_cycle(kind_of(e)),
{
}

} // verus!
