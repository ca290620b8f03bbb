//! The ingestion store: items unique by external id, analysis jobs unique per
//! (item, model), per-account checkpoints, the reanalysis queue, run records
//! and the error log.
use vstd::prelude::*;
use std::collections::HashMap;
use crate::error::CrawlerError;
use crate::models::{
    engagement_of, engagement_spec, has_reference, is_reply, is_retweet, Engagement,
    ReanalysisRequest, TrackedUser, TwitterApiTweet,
};

verus! {

broadcast use vstd::std_specs::hash::group_hash_axioms;

/// Most rows a table of this store holds.
pub const ROW_LIMIT: usize = 0x7fff_fffe;

/// A persisted item; `id` is its row id.
#[derive(Debug, Clone)]
pub struct StoredTweet {
    pub id: i64,
    pub twitter_user_id: i64,
    pub tweet_id: String,
    pub content: String,
    pub tweet_timestamp: i64,
    pub engagement: Engagement,
    pub is_retweet: bool,
    pub is_reply: bool,
}

/// A queued analysis of one item by one model (or by no particular model).
#[derive(Debug, Clone, Copy, PartialEq, Eq, Structural)]
pub struct AnalysisJob {
    pub tweet_id: i64,
    pub llm_model_id: Option<i64>,
}

/// A tracked account as stored, with its denormalized profile fields.
#[derive(Debug, Clone)]
pub struct UserRow {
    pub id: i64,
    pub twitter_id: String,
    pub username: String,
    pub display_name: String,
    pub avatar_url: Option<String>,
    pub follower_count: Option<u64>,
    pub following_count: Option<u64>,
    pub is_active: bool,
}

/// An analysis model and whether it takes new jobs.
#[derive(Debug, Clone, Copy, PartialEq, Eq, Structural)]
pub struct ModelRow {
    pub id: i64,
    pub is_enabled: bool,
}

/// Where a reanalysis request is in its lifecycle.
#[derive(Debug, Clone, Copy, PartialEq, Eq, Structural)]
pub enum RequestStatus {
    Pending,
    Processing,
    Completed,
}

/// A stored reanalysis request; rows are kept in the order they were requested.
#[derive(Debug, Clone)]
pub struct RequestRow {
    pub request: ReanalysisRequest,
    pub status: RequestStatus,
}

/// Outcome of a crawl cycle.
#[derive(Debug, Clone, Copy, PartialEq, Eq, Structural)]
pub enum RunStatus {
    Running,
    Completed,
    Failed,
}

impl RunStatus {
    /// The label stored in run records.
    pub fn as_str(&self) -> (r: &'static str)
        ensures
            *self == RunStatus::Running ==> r@ == "running"@,
            *self == RunStatus::Completed ==> r@ == "completed"@,
            *self == RunStatus::Failed ==> r@ == "failed"@,
    {
        match self {
            RunStatus::Running => "running",
            RunStatus::Completed => "completed",
            RunStatus::Failed => "failed",
        }
    }
}

/// One recorded error: its kind label, message, optional code and endpoint,
/// and when it happened (seconds since the epoch).
#[derive(Debug, Clone)]
pub struct ApiErrorDetail {
    pub error_type: String,
    pub message: String,
    pub code: Option<String>,
    pub endpoint: Option<String>,
    pub timestamp: i64,
}

/// The audit record of one crawl cycle.
#[derive(Debug, Clone)]
pub struct CrawlRun {
    pub id: i64,
    pub status: RunStatus,
    pub tweets_fetched: u64,
    pub tweets_analyzed: u64,
    pub errors_count: u64,
    pub error_details: Vec<ApiErrorDetail>,
}

/// The relational state the crawler reads and writes.
pub struct Database {
    pub tweets: Vec<StoredTweet>,
    pub jobs: Vec<AnalysisJob>,
    pub checkpoints: HashMap<i64, i64>,
    pub users: Vec<UserRow>,
    pub models: Vec<ModelRow>,
    pub requests: Vec<RequestRow>,
    pub runs: Vec<CrawlRun>,
    pub api_errors: Vec<ApiErrorDetail>,
}

/// The active accounts, in table order.
pub open spec fn active_users(rows: Seq<UserRow>) -> Seq<TrackedUser>
    decreases rows.len(),
{
    if rows.len() == 0 {
        Seq::empty()
    } else {
        let prev = active_users(rows.drop_last());
        let u = rows.last();
        if u.is_active {
            prev.push(TrackedUser {
                id: u.id,
                twitter_id: u.twitter_id,
                username: u.username,
                display_name: u.display_name,
            })
        } else {
            prev
        }
    }
}

/// The ids of the enabled models, in table order.
pub open spec fn enabled_models(rows: Seq<ModelRow>) -> Seq<i64>
    decreases rows.len(),
{
    if rows.len() == 0 {
        Seq::empty()
    } else {
        let prev = enabled_models(rows.drop_last());
        if rows.last().is_enabled {
            prev.push(rows.last().id)
        } else {
            prev
        }
    }
}

/// The pending requests, oldest first.
pub open spec fn pending_requests(rows: Seq<RequestRow>) -> Seq<ReanalysisRequest>
    decreases rows.len(),
{
    if rows.len() == 0 {
        Seq::empty()
    } else {
        let prev = pending_requests(rows.drop_last());
        if rows.last().status == RequestStatus::Pending {
            prev.push(rows.last().request)
        } else {
            prev
        }
    }
}

/// The tables other than items and jobs are the same.
pub open spec fn keeps_others(a: Database, b: Database) -> bool {
    &&& a.checkpoints == b.checkpoints
    &&& a.users == b.users
    &&& a.models == b.models
    &&& a.requests == b.requests
    &&& a.runs == b.runs
    &&& a.api_errors == b.api_errors
}

/// The row after a profile refresh: rows of other handles are unchanged; for
/// the given handle the external id is replaced and each other given field
/// replaces the stored one.
pub open spec fn profile_updated(
    o: UserRow,
    n: UserRow,
    username: Seq<char>,
    twitter_id: Seq<char>,
    display_name: Option<&str>,
    avatar_url: Option<&str>,
    follower_count: Option<u64>,
    following_count: Option<u64>,
) -> bool {
    if o.username@ == username {
        &&& n.id == o.id
        &&& n.username == o.username
        &&& n.is_active == o.is_active
        &&& n.twitter_id@ == twitter_id
        &&& match display_name {
            Some(d) => n.display_name@ == d@,
            None => n.display_name == o.display_name,
        }
        &&& match avatar_url {
            Some(a) => n.avatar_url matches Some(v) && v@ == a@,
            None => n.avatar_url == o.avatar_url,
        }
        &&& n.follower_count == (if follower_count is Some { follower_count } else { o.follower_count })
        &&& n.following_count == (if following_count is Some { following_count } else { o.following_count })
    } else {
        n == o
    }
}

/// Some row holds the external id.
pub open spec fn has_item(rows: Seq<StoredTweet>, ext: Seq<char>) -> bool {
    exists|i: int| 0 <= i < rows.len() && (#[trigger] rows[i]).tweet_id@ == ext
}

/// Some input item carries the external id.
pub open spec fn lists_item(items: Seq<TwitterApiTweet>, ext: Seq<char>) -> bool {
    exists|i: int| 0 <= i < items.len() && (#[trigger] items[i]).id@ == ext
}

/// The input items that an ingestion adds to `rows`, in input order: those
/// whose external id is neither stored nor seen earlier in the input.
pub open spec fn new_items(rows: Seq<StoredTweet>, input: Seq<TwitterApiTweet>) -> Seq<TwitterApiTweet>
    decreases input.len(),
{
    if input.len() == 0 {
        Seq::empty()
    } else {
        let prev = new_items(rows, input.drop_last());
        let t = input.last();
        if has_item(rows, t.id@) || lists_item(prev, t.id@) {
            prev
        } else {
            prev.push(t)
        }
    }
}

/// The latest creation time among the input items.
pub open spec fn max_created(input: Seq<TwitterApiTweet>) -> Option<i64>
    decreases input.len(),
{
    if input.len() == 0 {
        None
    } else {
        match max_created(input.drop_last()) {
            Some(c) => if c >= input.last().created_at { Some(c) } else { Some(input.last().created_at) },
            None => Some(input.last().created_at),
        }
    }
}

/// A row stores the item for the account under the row id.
pub open spec fn row_of(row: StoredTweet, user: i64, t: TwitterApiTweet, id: int) -> bool {
    &&& row.id == id
    &&& row.twitter_user_id == user
    &&& row.tweet_id@ == t.id@
    &&& row.content@ == t.text@
    &&& row.tweet_timestamp == t.created_at
    &&& row.engagement == engagement_spec(t.public_metrics)
    &&& row.is_retweet == has_reference(t, "retweeted"@)
    &&& row.is_reply == has_reference(t, "replied_to"@)
}

/// The job is one that an item needs for the enabled models: one per model,
/// or a single one with no model when none is enabled.
pub open spec fn is_target(j: AnalysisJob, tweet: int, models: Seq<i64>) -> bool {
    &&& j.tweet_id == tweet
    &&& if models.len() == 0 {
        j.llm_model_id is None
    } else {
        j.llm_model_id matches Some(m) && models.contains(m)
    }
}

/// The job is a target of one of the rows from index `from` on.
pub open spec fn targets_rows(j: AnalysisJob, rows: Seq<StoredTweet>, from: int, models: Seq<i64>) -> bool {
    exists|k: int| from <= k < rows.len() && is_target(j, (#[trigger] rows[k]).id as int, models)
}

/// The store after ingesting `input` for an account: the new items are
/// appended as rows in input order, and the jobs are the old ones plus the
/// targets of each new row.
pub open spec fn ingested(
    before: Database,
    after: Database,
    user: i64,
    input: Seq<TwitterApiTweet>,
    models: Seq<i64>,
) -> bool {
    let items = new_items(before.tweets@, input);
    let n = before.tweets@.len();
    &&& after.tweets@.len() == n + items.len()
    &&& after.tweets@.subrange(0, n as int) == before.tweets@
    &&& forall|k: int| 0 <= k < items.len() ==> row_of(#[trigger] after.tweets@[n + k], user, items[k], n + k + 1)
    &&& after.jobs@.len() >= before.jobs@.len()
    &&& after.jobs@.subrange(0, before.jobs@.len() as int) == before.jobs@
    &&& forall|j: AnalysisJob| #[trigger] after.jobs@.contains(j) <==> (before.jobs@.contains(j)
        || targets_rows(j, after.tweets@, n as int, models))
}

proof fn lemma_rows_split(old_rows: Seq<StoredTweet>, rows: Seq<StoredTweet>, items: Seq<TwitterApiTweet>)
    requires
        rows.len() == old_rows.len() + items.len(),
        rows.subrange(0, old_rows.len() as int) == old_rows,
        forall|k: int| 0 <= k < items.len() ==> (#[trigger] rows[old_rows.len() + k]).tweet_id@ == items[k].id@,
    ensures
        forall|ext: Seq<char>| #[trigger] has_item(rows, ext) == (has_item(old_rows, ext) || lists_item(items, ext)),
{
    assert forall|ext: Seq<char>| #[trigger] has_item(rows, ext) == (has_item(old_rows, ext) || lists_item(items, ext)) by {
        if has_item(rows, ext) {
            let i = choose|i: int| 0 <= i < rows.len() && (#[trigger] rows[i]).tweet_id@ == ext;
            if i < old_rows.len() {
                assert(old_rows[i] == rows[i]);
            } else {
                let k = i - old_rows.len();
                assert(rows[old_rows.len() + k].tweet_id@ == items[k].id@);
            }
        }
        if has_item(old_rows, ext) {
            let i = choose|i: int| 0 <= i < old_rows.len() && (#[trigger] old_rows[i]).tweet_id@ == ext;
            assert(old_rows[i] == rows[i]);
        }
        if lists_item(items, ext) {
            let k = choose|k: int| 0 <= k < items.len() && (#[trigger] items[k]).id@ == ext;
            assert(rows[old_rows.len() + k].tweet_id@ == items[k].id@);
        }
    }
}

proof fn lemma_max_created_step(input: Seq<TwitterApiTweet>, i: int)
    requires
        0 <= i < input.len(),
    ensures
        input.take(i + 1).drop_last() == input.take(i),
        input.take(i + 1).last() == input[i],
{
    assert(input.take(i + 1).drop_last() =~= input.take(i));
}

/// At most `limit` oldest pending requests; a negative limit means all.
pub open spec fn first_pending(rows: Seq<RequestRow>, limit: i64) -> Seq<ReanalysisRequest> {
    let all = pending_requests(rows);
    if limit < 0 || limit >= all.len() {
        all
    } else {
        all.take(limit as int)
    }
}

/// The request rows after setting the status of those with the given id.
pub open spec fn statuses_set(o: Seq<RequestRow>, n: Seq<RequestRow>, id: i64, status: RequestStatus) -> bool {
    &&& n.len() == o.len()
    &&& forall|i: int| 0 <= i < o.len() ==> {
        &&& (#[trigger] n[i]).request == o[i].request
        &&& n[i].status == if o[i].request.id == id { status } else { o[i].status }
    }
}

/// The row is selected by an optional account filter.
pub open spec fn selects(filter: Option<i64>, row: StoredTweet) -> bool {
    match filter {
        Some(u) => row.twitter_user_id == u,
        None => true,
    }
}

/// The job is a target of a stored row that the filter selects.
pub open spec fn targets_selected(j: AnalysisJob, rows: Seq<StoredTweet>, end: int, filter: Option<i64>, models: Seq<i64>) -> bool {
    exists|k: int| 0 <= k < end && selects(filter, rows[k]) && is_target(j, (#[trigger] rows[k]).id as int, models)
}

/// An error entry holds the given kind label, message, code, endpoint and time.
pub open spec fn logged(
    d: ApiErrorDetail,
    error_type: Seq<char>,
    message: Seq<char>,
    code: Option<&str>,
    endpoint: Option<&str>,
    timestamp: i64,
) -> bool {
    &&& d.error_type@ == error_type
    &&& d.message@ == message
    &&& match code {
        Some(c) => d.code matches Some(v) && v@ == c@,
        None => d.code is None,
    }
    &&& match endpoint {
        Some(e) => d.endpoint matches Some(v) && v@ == e@,
        None => d.endpoint is None,
    }
    &&& d.timestamp == timestamp
}

proof fn lemma_pending_prefix(rows: Seq<RequestRow>, i: int, n: int)
    requires
        0 <= i <= n <= rows.len(),
    ensures
        pending_requests(rows.take(i)).len() <= pending_requests(rows.take(n)).len(),
        pending_requests(rows.take(i)) == pending_requests(rows.take(n)).take(pending_requests(rows.take(i)).len() as int),
    decreases n - i,
{
    let a = pending_requests(rows.take(i));
    if i == n {
        assert(a.take(a.len() as int) =~= a);
    } else {
        lemma_pending_prefix(rows, i, n - 1);
        assert(rows.take(n).drop_last() =~= rows.take(n - 1));
        let b = pending_requests(rows.take(n - 1));
        let c = pending_requests(rows.take(n));
        assert(c.take(b.len() as int) =~= b);
        assert(c.take(a.len() as int) =~= b.take(a.len() as int));
    }
}

fn copy_request(r: &ReanalysisRequest) -> (c: ReanalysisRequest)
    ensures
        c == *r,
{
    ReanalysisRequest {
        id: r.id,
        request_type: r.request_type.clone(),
        tweet_id: r.tweet_id,
        twitter_user_id: r.twitter_user_id,
    }
}

fn copy_detail(d: &ApiErrorDetail) -> (c: ApiErrorDetail)
    ensures
        c == *d,
{
    ApiErrorDetail {
        error_type: d.error_type.clone(),
        message: d.message.clone(),
        code: clone_text(&d.code),
        endpoint: clone_text(&d.endpoint),
        timestamp: d.timestamp,
    }
}

fn copy_details(v: &Vec<ApiErrorDetail>) -> (c: Vec<ApiErrorDetail>)
    ensures
        c@ == v@,
{
    let mut out: Vec<ApiErrorDetail> = Vec::new();
    let mut i: usize = 0;
    while i < v.len()
        invariant
            0 <= i <= v@.len(),
            out@ == v@.take(i as int),
        decreases v@.len() - i,
    {
        out.push(copy_detail(&v[i]));
        proof {
            assert(out@ =~= v@.take(i as int + 1));
        }
        i = i + 1;
    }
    proof {
        assert(v@.take(v@.len() as int) =~= v@);
    }
    out
}

fn text_of(t: Option<&str>) -> (r: Option<String>)
    ensures
        match t {
            Some(s) => r matches Some(v) && v@ == s@,
            None => r is None,
        },
{
    match t {
        Some(s) => Some(s.to_owned()),
        None => None,
    }
}

fn clone_text(t: &Option<String>) -> (r: Option<String>)
    ensures
        r == *t,
{
    match t {
        Some(v) => Some(v.clone()),
        None => None,
    }
}

proof fn lemma_input_stored(rows: Seq<StoredTweet>, input: Seq<TwitterApiTweet>)
    ensures
        forall|k: int| 0 <= k < input.len() ==> has_item(rows, (#[trigger] input[k]).id@)
            || lists_item(new_items(rows, input), input[k].id@),
    decreases input.len(),
{
    if input.len() > 0 {
        let prev_in = input.drop_last();
        lemma_input_stored(rows, prev_in);
        let prev = new_items(rows, prev_in);
        let t = input.last();
        assert forall|k: int| 0 <= k < input.len() implies has_item(rows, (#[trigger] input[k]).id@)
            || lists_item(new_items(rows, input), input[k].id@) by {
            if k < input.len() - 1 {
                assert(input[k] == prev_in[k]);
                if lists_item(prev, input[k].id@) {
                    let m = choose|m: int| 0 <= m < prev.len() && (#[trigger] prev[m]).id@ == input[k].id@;
                    if !(has_item(rows, t.id@) || lists_item(prev, t.id@)) {
                        assert(new_items(rows, input)[m] == prev[m]);
                    }
                }
            } else {
                if !(has_item(rows, t.id@) || lists_item(prev, t.id@)) {
                    assert(new_items(rows, input)[prev.len() as int] == t);
                }
            }
        }
    }
}

proof fn lemma_nothing_new(rows: Seq<StoredTweet>, input: Seq<TwitterApiTweet>)
    requires
        forall|k: int| 0 <= k < input.len() ==> has_item(rows, (#[trigger] input[k]).id@),
    ensures
        new_items(rows, input).len() == 0,
    decreases input.len(),
{
    if input.len() > 0 {
        assert forall|k: int| 0 <= k < input.drop_last().len() implies has_item(rows, (#[trigger] input.drop_last()[k]).id@) by {
            assert(input.drop_last()[k] == input[k]);
        }
        lemma_nothing_new(rows, input.drop_last());
        assert(has_item(rows, input[input.len() - 1].id@));
    }
}

proof fn lemma_same_elements_same_seq(a: Seq<AnalysisJob>, b: Seq<AnalysisJob>)
    requires
        b.len() >= a.len(),
        b.subrange(0, a.len() as int) == a,
        b.no_duplicates(),
        forall|j: AnalysisJob| b.contains(j) ==> a.contains(j),
    ensures
        b == a,
{
    if b.len() > a.len() {
        let x = b[a.len() as int];
        assert(b.contains(x));
        let i = choose|i: int| 0 <= i < a.len() && a[i] == x;
        assert(b[i] == a[i]);
    }
    assert(b =~= a);
}

/// Ingesting the same items twice: the second ingestion stores no row and
/// queues no job, and each item is then stored exactly once.
pub proof fn lemma_ingest_idempotent(
    before: Database,
    mid: Database,
    after: Database,
    user: i64,
    items: Seq<TwitterApiTweet>,
    models: Seq<i64>,
)
    requires
        before.wf(),
        mid.wf(),
        after.wf(),
        ingested(before, mid, user, items, models),
        ingested(mid, after, user, items, models),
    ensures
        new_items(mid.tweets@, items).len() == 0,
        after.tweets@ == mid.tweets@,
        after.jobs@ == mid.jobs@,
        forall|k: int| 0 <= k < items.len() ==> has_item(after.tweets@, (#[trigger] items[k]).id@),
        forall|a: int, b: int| 0 <= a < b < after.tweets@.len() ==> after.tweets@[a].tweet_id@ != after.tweets@[b].tweet_id@,
{
    let fresh = new_items(before.tweets@, items);
    let n = before.tweets@.len();
    lemma_input_stored(before.tweets@, items);
    assert forall|k: int| 0 <= k < items.len() implies has_item(mid.tweets@, (#[trigger] items[k]).id@) by {
        if has_item(before.tweets@, items[k].id@) {
            let i = choose|i: int| 0 <= i < before.tweets@.len() && (#[trigger] before.tweets@[i]).tweet_id@ == items[k].id@;
            assert(mid.tweets@.subrange(0, n as int)[i] == mid.tweets@[i]);
        } else {
            let m = choose|m: int| 0 <= m < fresh.len() && (#[trigger] fresh[m]).id@ == items[k].id@;
            assert(row_of(mid.tweets@[n + m], user, fresh[m], n + m + 1));
        }
    }
    lemma_nothing_new(mid.tweets@, items);
    assert(after.tweets@ =~= mid.tweets@.subrange(0, mid.tweets@.len() as int));
    assert(mid.tweets@.subrange(0, mid.tweets@.len() as int) =~= mid.tweets@);
    assert forall|j: AnalysisJob| after.jobs@.contains(j) implies mid.jobs@.contains(j) by {
        if targets_rows(j, after.tweets@, mid.tweets@.len() as int, models) {
            let k = choose|k: int| mid.tweets@.len() <= k < after.tweets@.len() && is_target(j, (#[trigger] after.tweets@[k]).id as int, models);
        }
    }
    lemma_same_elements_same_seq(mid.jobs@, after.jobs@);
}

/// Ingesting items that are all stored already changes nothing: no row, no
/// job. After one ingestion every item is stored, so this holds for the
/// second and every later ingestion of the same items.
pub proof fn lemma_ingest_of_stored_items(
    before: Database,
    after: Database,
    user: i64,
    items: Seq<TwitterApiTweet>,
    models: Seq<i64>,
)
    requires
        before.wf(),
        after.wf(),
        ingested(before, after, user, items, models),
        forall|k: int| 0 <= k < items.len() ==> has_item(before.tweets@, (#[trigger] items[k]).id@),
    ensures
        new_items(before.tweets@, items).len() == 0,
        after.tweets@ == before.tweets@,
        after.jobs@ == before.jobs@,
{
    lemma_nothing_new(before.tweets@, items);
    assert(after.tweets@ =~= before.tweets@.subrange(0, before.tweets@.len() as int));
    assert(before.tweets@.subrange(0, before.tweets@.len() as int) =~= before.tweets@);
    assert forall|j: AnalysisJob| after.jobs@.contains(j) implies before.jobs@.contains(j) by {
        if targets_rows(j, after.tweets@, before.tweets@.len() as int, models) {
            let k = choose|k: int| before.tweets@.len() <= k < after.tweets@.len() && is_target(j, (#[trigger] after.tweets@[k]).id as int, models);
        }
    }
    lemma_same_elements_same_seq(before.jobs@, after.jobs@);
}

/// Ingesting one new item queues one job per enabled model (two models give
/// two jobs) or a single job with no model when none is enabled; the jobs
/// added are exactly the new row's targets.
pub proof fn lemma_job_fan_out(
    before: Database,
    after: Database,
    user: i64,
    item: TwitterApiTweet,
    models: Seq<i64>,
)
    requires
        before.wf(),
        after.wf(),
        ingested(before, after, user, seq![item], models),
        !has_item(before.tweets@, item.id@),
        models.len() == 0 || (models.len() == 2 && models[0] != models[1]),
    ensures
        after.tweets@.len() == before.tweets@.len() + 1,
        models.len() == 0 ==> after.jobs@.len() == before.jobs@.len() + 1,
        models.len() == 2 ==> after.jobs@.len() == before.jobs@.len() + 2,
        forall|j: AnalysisJob| #[trigger] after.jobs@.skip(before.jobs@.len() as int).contains(j) <==> is_target(
            j,
            before.tweets@.len() as int + 1,
            models,
        ),
{
    let n = before.tweets@.len();
    let input = seq![item];
    assert(input.drop_last() =~= Seq::<TwitterApiTweet>::empty());
    assert(new_items(before.tweets@, input.drop_last()) =~= Seq::<TwitterApiTweet>::empty());
    assert(!lists_item(Seq::<TwitterApiTweet>::empty(), item.id@));
    assert(new_items(before.tweets@, input) =~= seq![item]);
    let id = (n + 1) as int;
    assert(row_of(after.tweets@[n as int + 0], user, new_items(before.tweets@, input)[0], n as int + 0 + 1));
    assert(after.tweets@[n as int].id == id);
    let b = before.jobs@;
    let s = after.jobs@.skip(b.len() as int);
    assert(after.jobs@ =~= b + s);
    assert forall|j: AnalysisJob| s.contains(j) <==> is_target(j, id, models) by {
        if s.contains(j) {
            let k = choose|k: int| 0 <= k < s.len() && s[k] == j;
            assert(after.jobs@[b.len() + k] == j);
            assert(after.jobs@.contains(j));
            if b.contains(j) {
                let i = choose|i: int| 0 <= i < b.len() && b[i] == j;
                assert(after.jobs@[i] == b[i]);
            }
            if targets_rows(j, after.tweets@, n as int, models) {
                let r = choose|r: int| n <= r < after.tweets@.len() && is_target(j, (#[trigger] after.tweets@[r]).id as int, models);
                assert(r == n);
            }
        }
        if is_target(j, id, models) {
            assert(targets_rows(j, after.tweets@, n as int, models)) by {
                assert(is_target(j, after.tweets@[n as int].id as int, models));
            }
            assert(after.jobs@.contains(j));
            if b.contains(j) {
                let i = choose|i: int| 0 <= i < b.len() && b[i] == j;
                assert(1 <= b[i].tweet_id <= n);
            }
            let k = choose|k: int| 0 <= k < after.jobs@.len() && after.jobs@[k] == j;
            if k < b.len() {
                assert(b[k] == after.jobs@[k]);
                assert(b.contains(j));
            } else {
                assert(s[k - b.len()] == j);
            }
        }
    }
    assert forall|x: int, y: int| 0 <= x < y < s.len() implies s[x] != s[y] by {
        assert(after.jobs@[b.len() + x] == s[x]);
        assert(after.jobs@[b.len() + y] == s[y]);
    }
    if models.len() == 0 {
        let t = AnalysisJob { tweet_id: id as i64, llm_model_id: None };
        assert(s.contains(t));
        if s.len() >= 2 {
            assert(s.contains(s[0]));
            assert(s.contains(s[1]));
        }
    } else {
        let t0 = AnalysisJob { tweet_id: id as i64, llm_model_id: Some(models[0]) };
        let t1 = AnalysisJob { tweet_id: id as i64, llm_model_id: Some(models[1]) };
        assert(models.contains(models[0]));
        assert(models.contains(models[1]));
        assert(s.contains(t0));
        assert(s.contains(t1));
        if s.len() >= 3 {
            assert(s.contains(s[0]));
            assert(s.contains(s[1]));
            assert(s.contains(s[2]));
            assert(is_target(s[0], id, models));
            assert(is_target(s[1], id, models));
            assert(is_target(s[2], id, models));
        }
        if s.len() == 1 {
            assert(s.contains(t0));
        }
    }
}

/// Asking again for the jobs of a stored item queues only the missing ones:
/// a job is added exactly when it is a target of the item and was not queued,
/// so the number added is the number of such missing jobs.
pub proof fn lemma_reanalysis_adds_delta(before: Database, after: Database, tweet: int, models: Seq<i64>)
    requires
        after.wf(),
        after.jobs@.len() >= before.jobs@.len(),
        after.jobs@.subrange(0, before.jobs@.len() as int) == before.jobs@,
        forall|j: AnalysisJob| #[trigger] after.jobs@.contains(j) <==> (before.jobs@.contains(j) || is_target(j, tweet, models)),
    ensures
        forall|j: AnalysisJob| #[trigger] after.jobs@.skip(before.jobs@.len() as int).contains(j) <==> (is_target(j, tweet, models) && !before.jobs@.contains(j)),
        after.jobs@.len() - before.jobs@.len() == Set::new(|j: AnalysisJob| is_target(j, tweet, models) && !before.jobs@.contains(j)).len(),
{
    let b = before.jobs@;
    let s = after.jobs@.skip(b.len() as int);
    assert forall|x: int, y: int| 0 <= x < y < s.len() implies s[x] != s[y] by {
        assert(after.jobs@[b.len() + x] == s[x]);
        assert(after.jobs@[b.len() + y] == s[y]);
    }
    s.unique_seq_to_set();
    assert forall|j: AnalysisJob| #[trigger] s.contains(j) <==> (is_target(j, tweet, models) && !b.contains(j)) by {
        if s.contains(j) {
            let k = choose|k: int| 0 <= k < s.len() && s[k] == j;
            assert(after.jobs@[b.len() + k] == j);
            assert(after.jobs@.contains(j));
            if b.contains(j) {
                let i = choose|i: int| 0 <= i < b.len() && b[i] == j;
                assert(after.jobs@[i] == b[i]);
            }
        }
        if is_target(j, tweet, models) && !b.contains(j) {
            assert(after.jobs@.contains(j));
            let k = choose|k: int| 0 <= k < after.jobs@.len() && after.jobs@[k] == j;
            if k < b.len() {
                assert(b[k] == after.jobs@[k]);
            } else {
                assert(s[k - b.len()] == j);
            }
        }
    }
    assert(s.to_set() =~= Set::new(|j: AnalysisJob| is_target(j, tweet, models) && !b.contains(j)));
}

/// Two checkpoint writes for one account: the later value is the one stored.
pub proof fn lemma_checkpoint_last_write(first: Database, second: Database, third: Database, user: i64, t1: i64, t2: i64)
    requires
        second.checkpoints@ == first.checkpoints@.insert(user, t1),
        third.checkpoints@ == second.checkpoints@.insert(user, t2),
    ensures
        third.checkpoints@.contains_key(user),
        third.checkpoints@[user] == t2,
{
}

impl Database {
    /// Rows are numbered from one, external ids are unique, jobs are unique
    /// and refer to stored rows.
    pub open spec fn wf(&self) -> bool {
        &&& self.tweets@.len() <= ROW_LIMIT
        &&& forall|i: int| 0 <= i < self.tweets@.len() ==> (#[trigger] self.tweets@[i]).id == i + 1
        &&& forall|i: int, j: int|
            0 <= i < j < self.tweets@.len() ==> self.tweets@[i].tweet_id@ != self.tweets@[j].tweet_id@
        &&& self.jobs@.no_duplicates()
        &&& forall|k: int|
            0 <= k < self.jobs@.len() ==> 1 <= (#[trigger] self.jobs@[k]).tweet_id <= self.tweets@.len()
        &&& self.runs@.len() <= ROW_LIMIT
        &&& forall|i: int| 0 <= i < self.runs@.len() ==> (#[trigger] self.runs@[i]).id == i + 1
    }

    /// An empty store.
    pub fn new() -> (r: Database)
        ensures
            r.wf(),
            r.tweets@.len() == 0,
            r.jobs@.len() == 0,
            r.checkpoints@ == Map::<i64, i64>::empty(),
            r.users@.len() == 0,
            r.models@.len() == 0,
            r.requests@.len() == 0,
            r.runs@.len() == 0,
            r.api_errors@.len() == 0,
    {
        Database {
            tweets: Vec::new(),
            jobs: Vec::new(),
            checkpoints: HashMap::new(),
            users: Vec::new(),
            models: Vec::new(),
            requests: Vec::new(),
            runs: Vec::new(),
            api_errors: Vec::new(),
        }
    }

    fn find_item(&self, ext: &String) -> (r: bool)
        ensures
            r == has_item(self.tweets@, ext@),
    {
        let mut i: usize = 0;
        while i < self.tweets.len()
            invariant
                0 <= i <= self.tweets@.len(),
                forall|j: int| 0 <= j < i ==> (#[trigger] self.tweets@[j]).tweet_id@ != ext@,
            decreases self.tweets@.len() - i,
        {
            if self.tweets[i].tweet_id == *ext {
                assert(self.tweets@[i as int].tweet_id@ == ext@);
                return true;
            }
            i = i + 1;
        }
        false
    }

    fn has_job(&self, job: AnalysisJob) -> (r: bool)
        ensures
            r == self.jobs@.contains(job),
    {
        let mut i: usize = 0;
        while i < self.jobs.len()
            invariant
                0 <= i <= self.jobs@.len(),
                forall|j: int| 0 <= j < i ==> self.jobs@[j] != job,
            decreases self.jobs@.len() - i,
        {
            if self.jobs[i] == job {
                assert(self.jobs@[i as int] == job);
                return true;
            }
            i = i + 1;
        }
        false
    }

    /// Adds the job unless it is already queued; returns how many were added.
    fn enqueue_job(&mut self, job: AnalysisJob) -> (r: u64)
        requires
            old(self).wf(),
            1 <= job.tweet_id <= old(self).tweets@.len(),
        ensures
            final(self).wf(),
            final(self).tweets == old(self).tweets,
            keeps_others(*old(self), *final(self)),
            final(self).jobs@ == if old(self).jobs@.contains(job) {
                old(self).jobs@
            } else {
                old(self).jobs@.push(job)
            },
            r == final(self).jobs@.len() - old(self).jobs@.len(),
    {
        if self.has_job(job) {
            0
        } else {
            self.jobs.push(job);
            proof {
                let s = self.jobs@;
                assert forall|a: int, b: int| 0 <= a < s.len() && 0 <= b < s.len() && a != b implies s[a] != s[b] by {
                    if b == s.len() - 1 {
                        assert(old(self).jobs@[a] == s[a]);
                    } else if a == s.len() - 1 {
                        assert(old(self).jobs@[b] == s[b]);
                    } else {
                        assert(old(self).jobs@[a] == s[a]);
                        assert(old(self).jobs@[b] == s[b]);
                    }
                }
                assert forall|k: int| 0 <= k < s.len() implies 1 <= (#[trigger] s[k]).tweet_id <= self.tweets@.len() by {
                    if k < s.len() - 1 {
                        assert(s[k] == old(self).jobs@[k]);
                    }
                }
            }
            1
        }
    }

    /// Queues the jobs an item needs for the enabled models, skipping those
    /// already queued; returns how many were added.
    fn enqueue_jobs(&mut self, tweet_id: i64, enabled_model_ids: &Vec<i64>) -> (r: u64)
        requires
            old(self).wf(),
            1 <= tweet_id <= old(self).tweets@.len(),
        ensures
            final(self).wf(),
            final(self).tweets == old(self).tweets,
            keeps_others(*old(self), *final(self)),
            final(self).jobs@.len() >= old(self).jobs@.len(),
            final(self).jobs@.subrange(0, old(self).jobs@.len() as int) == old(self).jobs@,
            forall|j: AnalysisJob|
                final(self).jobs@.contains(j) <==> (old(self).jobs@.contains(j) || is_target(
                    j,
                    tweet_id as int,
                    enabled_model_ids@,
                )),
            r == final(self).jobs@.len() - old(self).jobs@.len(),
    {
        let start: usize = self.jobs.len();
        if enabled_model_ids.len() == 0 {
            self.enqueue_job(AnalysisJob { tweet_id, llm_model_id: None });
            proof {
                assert forall|j: AnalysisJob|
                    self.jobs@.contains(j) <==> (old(self).jobs@.contains(j) || is_target(j, tweet_id as int, enabled_model_ids@)) by {
                    if self.jobs@.len() > old(self).jobs@.len() && self.jobs@.contains(j) && !old(self).jobs@.contains(j) {
                        let k = choose|k: int| 0 <= k < self.jobs@.len() && self.jobs@[k] == j;
                        if k < old(self).jobs@.len() {
                            assert(old(self).jobs@[k] == j);
                        }
                    }
                    if is_target(j, tweet_id as int, enabled_model_ids@) {
                        assert(j == AnalysisJob { tweet_id, llm_model_id: None });
                        if self.jobs@.len() > old(self).jobs@.len() {
                            assert(self.jobs@[self.jobs@.len() - 1] == j);
                        }
                    }
                    if old(self).jobs@.contains(j) {
                        let k = choose|k: int| 0 <= k < old(self).jobs@.len() && old(self).jobs@[k] == j;
                        if self.jobs@.len() > old(self).jobs@.len() {
                            assert(self.jobs@[k] == j);
                        }
                    }
                }
            }
        } else {
            let mut i: usize = 0;
            while i < enabled_model_ids.len()
                invariant
                    0 <= i <= enabled_model_ids@.len(),
                    enabled_model_ids@.len() > 0,
                    1 <= tweet_id <= self.tweets@.len(),
                    self.wf(),
                    start == old(self).jobs@.len(),
                    self.tweets == old(self).tweets,
                    keeps_others(*old(self), *self),
                    self.jobs@.len() >= start,
                    self.jobs@.subrange(0, start as int) == old(self).jobs@,
                    forall|j: AnalysisJob|
                        #[trigger] self.jobs@.contains(j) <==> (old(self).jobs@.contains(j) || (is_target(
                            j,
                            tweet_id as int,
                            enabled_model_ids@,
                        ) && exists|m: int| 0 <= m < i && j.llm_model_id == Some(enabled_model_ids@[m]))),
                decreases enabled_model_ids@.len() - i,
            {
                let job = AnalysisJob { tweet_id, llm_model_id: Some(enabled_model_ids[i]) };
                let ghost before = self.jobs@;
                self.enqueue_job(job);
                proof {
                    assert(self.jobs@.subrange(0, start as int) == before.subrange(0, start as int));
                    assert(enabled_model_ids@.contains(enabled_model_ids@[i as int]));
                    assert forall|j: AnalysisJob|
                        #[trigger] self.jobs@.contains(j) <==> (old(self).jobs@.contains(j) || (is_target(
                            j,
                            tweet_id as int,
                            enabled_model_ids@,
                        ) && exists|m: int| 0 <= m < i + 1 && j.llm_model_id == Some(enabled_model_ids@[m]))) by {
                        if self.jobs@.contains(j) {
                            let k = choose|k: int| 0 <= k < self.jobs@.len() && self.jobs@[k] == j;
                            if k < before.len() {
                                assert(before[k] == j);
                                assert(before.contains(j));
                                if !old(self).jobs@.contains(j) {
                                    let m = choose|m: int| 0 <= m < i && j.llm_model_id == Some(enabled_model_ids@[m]);
                                    assert(0 <= m < i + 1 && j.llm_model_id == Some(enabled_model_ids@[m]));
                                }
                            } else {
                                assert(j == job);
                                assert(0 <= i < i + 1 && j.llm_model_id == Some(enabled_model_ids@[i as int]));
                            }
                        }
                        if before.contains(j) {
                            let k = choose|k: int| 0 <= k < before.len() && before[k] == j;
                            assert(self.jobs@[k] == j);
                        }
                        if j == job {
                            if !before.contains(j) {
                                assert(self.jobs@[self.jobs@.len() - 1] == j);
                            }
                        }
                        if is_target(j, tweet_id as int, enabled_model_ids@) && exists|m: int| 0 <= m < i + 1 && j.llm_model_id == Some(enabled_model_ids@[m]) {
                            let m = choose|m: int| 0 <= m < i + 1 && j.llm_model_id == Some(enabled_model_ids@[m]);
                            if m == i {
                                assert(j == job);
                            } else {
                                assert(0 <= m < i && j.llm_model_id == Some(enabled_model_ids@[m]));
                                assert(before.contains(j));
                            }
                        }
                    }
                }
                i = i + 1;
            }
            proof {
                assert forall|j: AnalysisJob|
                    is_target(j, tweet_id as int, enabled_model_ids@) implies exists|m: int| 0 <= m < i && j.llm_model_id == Some(enabled_model_ids@[m]) by {
                    let mid = j.llm_model_id->Some_0;
                    let m = choose|m: int| 0 <= m < enabled_model_ids@.len() && enabled_model_ids@[m] == mid;
                    assert(j.llm_model_id == Some(enabled_model_ids@[m]));
                }
            }
        }
        (self.jobs.len() - start) as u64
    }
    /// Stores the items not stored yet and queues their analysis jobs.
    /// Returns how many items were new, how many jobs were queued, and the
    /// latest creation time among all the given items.
    pub fn insert_tweets_and_enqueue(
        &mut self,
        twitter_user_id: i64,
        tweets: &Vec<TwitterApiTweet>,
        enabled_model_ids: &Vec<i64>,
    ) -> (r: Result<(u64, u64, Option<i64>), CrawlerError>)
        requires
            old(self).wf(),
        ensures
            final(self).wf(),
            keeps_others(*old(self), *final(self)),
            old(self).tweets@.len() + tweets@.len() <= ROW_LIMIT <==> r is Ok,
            r is Err ==> (r matches Err(CrawlerError::Database(_)) && final(self).tweets == old(self).tweets
                && final(self).jobs == old(self).jobs),
            r is Ok ==> ingested(*old(self), *final(self), twitter_user_id, tweets@, enabled_model_ids@),
            r matches Ok((ins, jobs, latest)) ==> {
                &&& ins == new_items(old(self).tweets@, tweets@).len()
                &&& jobs == final(self).jobs@.len() - old(self).jobs@.len()
                &&& latest == max_created(tweets@)
            },
    {
        if tweets.len() > ROW_LIMIT - self.tweets.len() {
            return Err(CrawlerError::Database("row limit reached".to_owned()));
        }
        let start_rows: usize = self.tweets.len();
        let start_jobs: usize = self.jobs.len();
        let mut latest: Option<i64> = None;
        let mut i: usize = 0;
        proof {
            assert(tweets@.take(0) =~= Seq::<TwitterApiTweet>::empty());
            assert(self.tweets@.subrange(0, start_rows as int) =~= self.tweets@);
            assert(self.jobs@.subrange(0, start_jobs as int) =~= self.jobs@);
        }
        while i < tweets.len()
            invariant
                0 <= i <= tweets@.len(),
                self.wf(),
                start_rows == old(self).tweets@.len(),
                start_rows + tweets@.len() <= ROW_LIMIT,
                start_jobs == old(self).jobs@.len(),
                keeps_others(*old(self), *self),
                self.tweets@.len() <= start_rows + i,
                ingested(*old(self), *self, twitter_user_id, tweets@.take(i as int), enabled_model_ids@),
                latest == max_created(tweets@.take(i as int)),
            decreases tweets@.len() - i,
        {
            let tweet = &tweets[i];
            proof {
                lemma_max_created_step(tweets@, i as int);
                let items = new_items(old(self).tweets@, tweets@.take(i as int));
                lemma_rows_split(old(self).tweets@, self.tweets@, items);
            }
            let ghost before = *self;
            if !self.find_item(&tweet.id) {
                let row_id = (self.tweets.len() + 1) as i64;
                let row = StoredTweet {
                    id: row_id,
                    twitter_user_id,
                    tweet_id: tweet.id.clone(),
                    content: tweet.text.clone(),
                    tweet_timestamp: tweet.created_at,
                    engagement: engagement_of(tweet),
                    is_retweet: is_retweet(tweet),
                    is_reply: is_reply(tweet),
                };
                self.tweets.push(row);
                proof {
                    let rows = self.tweets@;
                    assert(rows.subrange(0, start_rows as int) =~= before.tweets@.subrange(0, start_rows as int));
                    assert forall|a: int, b: int| 0 <= a < b < rows.len() implies rows[a].tweet_id@ != rows[b].tweet_id@ by {
                        if b == rows.len() - 1 {
                            assert(before.tweets@[a] == rows[a]);
                        } else {
                            assert(before.tweets@[a] == rows[a]);
                            assert(before.tweets@[b] == rows[b]);
                        }
                    }
                    assert forall|k: int| 0 <= k < self.jobs@.len() implies 1 <= (#[trigger] self.jobs@[k]).tweet_id <= rows.len() by {
                        assert(before.jobs@[k] == self.jobs@[k]);
                    }
                    assert forall|k: int| 0 <= k < rows.len() implies (#[trigger] rows[k]).id == k + 1 by {
                        if k < rows.len() - 1 {
                            assert(before.tweets@[k] == rows[k]);
                        }
                    }
                }
                let ghost mid = *self;
                self.enqueue_jobs(row_id, enabled_model_ids);
                proof {
                    let prev = tweets@.take(i as int);
                    let next = tweets@.take(i as int + 1);
                    assert(new_items(old(self).tweets@, next) == new_items(old(self).tweets@, prev).push(*tweet));
                    let items = new_items(old(self).tweets@, next);
                    let rows = self.tweets@;
                    assert forall|k: int| 0 <= k < items.len() implies row_of(
                        #[trigger] rows[start_rows + k], twitter_user_id, items[k], start_rows + k + 1) by {
                        if k < items.len() - 1 {
                            assert(before.tweets@[start_rows + k] == rows[start_rows + k]);
                        }
                    }
                    assert(rows.subrange(0, start_rows as int) =~= old(self).tweets@);
                    assert(self.jobs@.subrange(0, start_jobs as int) =~= old(self).jobs@) by {
                        assert(mid.jobs@.subrange(0, start_jobs as int) =~= old(self).jobs@);
                        assert(self.jobs@.subrange(0, mid.jobs@.len() as int) == mid.jobs@);
                    }
                    assert forall|j: AnalysisJob| #[trigger] self.jobs@.contains(j) <==> (old(self).jobs@.contains(j)
                        || targets_rows(j, rows, start_rows as int, enabled_model_ids@)) by {
                        if targets_rows(j, rows, start_rows as int, enabled_model_ids@) {
                            let k = choose|k: int| start_rows <= k < rows.len() && is_target(j, (#[trigger] rows[k]).id as int, enabled_model_ids@);
                            if k < rows.len() - 1 {
                                assert(before.tweets@[k] == rows[k]);
                                assert(targets_rows(j, before.tweets@, start_rows as int, enabled_model_ids@));
                                assert(before.jobs@.contains(j) || old(self).jobs@.contains(j));
                            }
                        }
                        if mid.jobs@.contains(j) && !old(self).jobs@.contains(j) {
                            assert(targets_rows(j, before.tweets@, start_rows as int, enabled_model_ids@));
                            let k = choose|k: int| start_rows <= k < before.tweets@.len() && is_target(j, (#[trigger] before.tweets@[k]).id as int, enabled_model_ids@);
                            assert(before.tweets@[k] == rows[k]);
                        }
                        if is_target(j, row_id as int, enabled_model_ids@) {
                            assert(rows[rows.len() - 1].id == row_id);
                        }
                    }
                }
            } else {
                proof {
                    let prev = tweets@.take(i as int);
                    let next = tweets@.take(i as int + 1);
                    assert(new_items(old(self).tweets@, next) == new_items(old(self).tweets@, prev));
                }
            }
            latest = match latest {
                Some(current) => if current >= tweet.created_at { Some(current) } else { Some(tweet.created_at) },
                None => Some(tweet.created_at),
            };
            i = i + 1;
        }
        proof {
            assert(tweets@.take(tweets@.len() as int) =~= tweets@);
        }
        Ok(((self.tweets.len() - start_rows) as u64, (self.jobs.len() - start_jobs) as u64, latest))
    }

    /// The stored checkpoint of an account, if any.
    pub fn get_checkpoint(&self, twitter_user_id: i64) -> (r: Result<Option<i64>, CrawlerError>)
        ensures
            r == Ok::<Option<i64>, CrawlerError>(
                if self.checkpoints@.contains_key(twitter_user_id) {
                    Some(self.checkpoints@[twitter_user_id])
                } else {
                    None
                },
            ),
    {
        match self.checkpoints.get(&twitter_user_id) {
            Some(ts) => Ok(Some(*ts)),
            None => Ok(None),
        }
    }

    /// Stores the checkpoint of an account, replacing any earlier one.
    pub fn set_checkpoint(&mut self, twitter_user_id: i64, timestamp: i64) -> (r: Result<(), CrawlerError>)
        requires
            old(self).wf(),
        ensures
            r is Ok,
            final(self).wf(),
            final(self).checkpoints@ == old(self).checkpoints@.insert(twitter_user_id, timestamp),
            final(self).tweets == old(self).tweets,
            final(self).jobs == old(self).jobs,
            final(self).users == old(self).users,
            final(self).requests == old(self).requests,
            final(self).runs == old(self).runs,
            final(self).models == old(self).models,
            final(self).api_errors == old(self).api_errors,
    {
        self.checkpoints.insert(twitter_user_id, timestamp);
        Ok(())
    }

    /// Adds a tracked account.
    pub fn add_user(&mut self, user: UserRow)
        requires
            old(self).wf(),
        ensures
            final(self).wf(),
            final(self).users@ == old(self).users@.push(user),
            final(self).tweets == old(self).tweets,
            final(self).jobs == old(self).jobs,
            final(self).checkpoints == old(self).checkpoints,
            final(self).requests == old(self).requests,
    {
        self.users.push(user);
    }

    /// Adds an analysis model.
    pub fn add_model(&mut self, model: ModelRow)
        requires
            old(self).wf(),
        ensures
            final(self).wf(),
            final(self).models@ == old(self).models@.push(model),
            final(self).tweets == old(self).tweets,
            final(self).jobs == old(self).jobs,
            final(self).users == old(self).users,
            final(self).requests == old(self).requests,
    {
        self.models.push(model);
    }

    /// Files a pending reanalysis request behind the earlier ones.
    pub fn add_reanalysis_request(&mut self, request: ReanalysisRequest)
        requires
            old(self).wf(),
        ensures
            final(self).wf(),
            final(self).requests@ == old(self).requests@.push(RequestRow { request, status: RequestStatus::Pending }),
            final(self).tweets == old(self).tweets,
            final(self).jobs == old(self).jobs,
            final(self).users == old(self).users,
            final(self).models == old(self).models,
    {
        self.requests.push(RequestRow { request, status: RequestStatus::Pending });
    }

    /// The active accounts, in table order.
    pub fn load_active_users(&self) -> (r: Result<Vec<TrackedUser>, CrawlerError>)
        ensures
            r matches Ok(v) && v@ == active_users(self.users@),
    {
        let mut out: Vec<TrackedUser> = Vec::new();
        let mut i: usize = 0;
        while i < self.users.len()
            invariant
                0 <= i <= self.users@.len(),
                out@ == active_users(self.users@.take(i as int)),
            decreases self.users@.len() - i,
        {
            proof {
                assert(self.users@.take(i as int + 1).drop_last() =~= self.users@.take(i as int));
            }
            let u = &self.users[i];
            if u.is_active {
                out.push(TrackedUser {
                    id: u.id,
                    twitter_id: u.twitter_id.clone(),
                    username: u.username.clone(),
                    display_name: u.display_name.clone(),
                });
            }
            i = i + 1;
        }
        proof {
            assert(self.users@.take(self.users@.len() as int) =~= self.users@);
        }
        Ok(out)
    }

    /// The ids of the enabled models, in table order.
    pub fn get_enabled_model_ids(&self) -> (r: Result<Vec<i64>, CrawlerError>)
        ensures
            r matches Ok(v) && v@ == enabled_models(self.models@),
    {
        let mut out: Vec<i64> = Vec::new();
        let mut i: usize = 0;
        while i < self.models.len()
            invariant
                0 <= i <= self.models@.len(),
                out@ == enabled_models(self.models@.take(i as int)),
            decreases self.models@.len() - i,
        {
            proof {
                assert(self.models@.take(i as int + 1).drop_last() =~= self.models@.take(i as int));
            }
            if self.models[i].is_enabled {
                out.push(self.models[i].id);
            }
            i = i + 1;
        }
        proof {
            assert(self.models@.take(self.models@.len() as int) =~= self.models@);
        }
        Ok(out)
    }

    /// Refreshes the profile fields of the accounts with this handle; a field
    /// given as `None` keeps its stored value.
    pub fn update_user_from_api(
        &mut self,
        username: &str,
        twitter_id: &str,
        display_name: Option<&str>,
        avatar_url: Option<&str>,
        follower_count: Option<u64>,
        following_count: Option<u64>,
    ) -> (r: Result<(), CrawlerError>)
        requires
            old(self).wf(),
        ensures
            r is Ok,
            final(self).wf(),
            final(self).users@.len() == old(self).users@.len(),
            forall|i: int| 0 <= i < old(self).users@.len() ==> {
                profile_updated(#[trigger] old(self).users@[i], final(self).users@[i], username@, twitter_id@, display_name, avatar_url, follower_count, following_count)
            },
            final(self).tweets == old(self).tweets,
            final(self).jobs == old(self).jobs,
            final(self).checkpoints == old(self).checkpoints,
            final(self).models == old(self).models,
            final(self).requests == old(self).requests,
            final(self).runs == old(self).runs,
            final(self).api_errors == old(self).api_errors,
    {
        let wanted = username.to_owned();
        let mut i: usize = 0;
        while i < self.users.len()
            invariant
                0 <= i <= self.users@.len(),
                self.users@.len() == old(self).users@.len(),
                wanted@ == username@,
                self.wf(),
                self.tweets == old(self).tweets,
                self.jobs == old(self).jobs,
                self.checkpoints == old(self).checkpoints,
                self.models == old(self).models,
                self.requests == old(self).requests,
                self.runs == old(self).runs,
                self.api_errors == old(self).api_errors,
                forall|k: int| i <= k < self.users@.len() ==> self.users@[k] == old(self).users@[k],
                forall|k: int| 0 <= k < i ==> {
                    profile_updated(#[trigger] old(self).users@[k], self.users@[k], username@, twitter_id@, display_name, avatar_url, follower_count, following_count)
                },
            decreases self.users@.len() - i,
        {
            if self.users[i].username == wanted {
                let o = &self.users[i];
                let row = UserRow {
                    id: o.id,
                    twitter_id: twitter_id.to_owned(),
                    username: o.username.clone(),
                    display_name: match display_name {
                        Some(d) => d.to_owned(),
                        None => o.display_name.clone(),
                    },
                    avatar_url: match avatar_url {
                        Some(a) => Some(a.to_owned()),
                        None => clone_text(&o.avatar_url),
                    },
                    follower_count: match follower_count {
                        Some(c) => Some(c),
                        None => o.follower_count,
                    },
                    following_count: match following_count {
                        Some(c) => Some(c),
                        None => o.following_count,
                    },
                    is_active: o.is_active,
                };
                self.users.set(i, row);
            }
            i = i + 1;
        }
        Ok(())
    }

    fn enqueue_for_rows(&mut self, filter: Option<i64>, enabled_model_ids: &Vec<i64>) -> (r: u64)
        requires
            old(self).wf(),
        ensures
            final(self).wf(),
            final(self).tweets == old(self).tweets,
            keeps_others(*old(self), *final(self)),
            final(self).jobs@.len() >= old(self).jobs@.len(),
            final(self).jobs@.subrange(0, old(self).jobs@.len() as int) == old(self).jobs@,
            forall|j: AnalysisJob| #[trigger] final(self).jobs@.contains(j) <==> (old(self).jobs@.contains(j)
                || targets_selected(j, old(self).tweets@, old(self).tweets@.len() as int, filter, enabled_model_ids@)),
            r == final(self).jobs@.len() - old(self).jobs@.len(),
    {
        let start: usize = self.jobs.len();
        let mut i: usize = 0;
        proof {
            assert(self.jobs@.subrange(0, start as int) =~= self.jobs@);
        }
        while i < self.tweets.len()
            invariant
                0 <= i <= self.tweets@.len(),
                self.wf(),
                start == old(self).jobs@.len(),
                self.tweets == old(self).tweets,
                keeps_others(*old(self), *self),
                self.jobs@.len() >= start,
                self.jobs@.subrange(0, start as int) == old(self).jobs@,
                forall|j: AnalysisJob| #[trigger] self.jobs@.contains(j) <==> (old(self).jobs@.contains(j)
                    || targets_selected(j, old(self).tweets@, i as int, filter, enabled_model_ids@)),
            decreases self.tweets@.len() - i,
        {
            let selected = match filter {
                Some(u) => self.tweets[i].twitter_user_id == u,
                None => true,
            };
            if selected {
                let row_id = self.tweets[i].id;
                let ghost before = self.jobs@;
                self.enqueue_jobs(row_id, enabled_model_ids);
                proof {
                    assert(self.jobs@.subrange(0, start as int) =~= before.subrange(0, start as int));
                    assert forall|j: AnalysisJob| #[trigger] self.jobs@.contains(j) <==> (old(self).jobs@.contains(j)
                        || targets_selected(j, old(self).tweets@, i + 1, filter, enabled_model_ids@)) by {
                        if targets_selected(j, old(self).tweets@, i + 1, filter, enabled_model_ids@) {
                            let k = choose|k: int| 0 <= k < i + 1 && selects(filter, old(self).tweets@[k]) && is_target(j, (#[trigger] old(self).tweets@[k]).id as int, enabled_model_ids@);
                            if k < i {
                                assert(targets_selected(j, old(self).tweets@, i as int, filter, enabled_model_ids@));
                            }
                        }
                        if before.contains(j) && !old(self).jobs@.contains(j) {
                            let k = choose|k: int| 0 <= k < i && selects(filter, old(self).tweets@[k]) && is_target(j, (#[trigger] old(self).tweets@[k]).id as int, enabled_model_ids@);
                            assert(0 <= k < i + 1);
                        }
                        if is_target(j, row_id as int, enabled_model_ids@) {
                            assert(selects(filter, old(self).tweets@[i as int]));
                        }
                    }
                }
            } else {
                proof {
                    assert forall|j: AnalysisJob| #[trigger] self.jobs@.contains(j) <==> (old(self).jobs@.contains(j)
                        || targets_selected(j, old(self).tweets@, i + 1, filter, enabled_model_ids@)) by {
                        if targets_selected(j, old(self).tweets@, i + 1, filter, enabled_model_ids@) {
                            let k = choose|k: int| 0 <= k < i + 1 && selects(filter, old(self).tweets@[k]) && is_target(j, (#[trigger] old(self).tweets@[k]).id as int, enabled_model_ids@);
                            assert(k != i);
                            assert(targets_selected(j, old(self).tweets@, i as int, filter, enabled_model_ids@));
                        }
                        if targets_selected(j, old(self).tweets@, i as int, filter, enabled_model_ids@) {
                            let k = choose|k: int| 0 <= k < i && selects(filter, old(self).tweets@[k]) && is_target(j, (#[trigger] old(self).tweets@[k]).id as int, enabled_model_ids@);
                            assert(0 <= k < i + 1);
                        }
                    }
                }
            }
            i = i + 1;
        }
        (self.jobs.len() - start) as u64
    }

    /// Queues the missing jobs of one stored item; an unknown item id is refused.
    pub fn enqueue_reanalysis_for_tweet(&mut self, tweet_id: i64, enabled_model_ids: &Vec<i64>) -> (r: Result<u64, CrawlerError>)
        requires
            old(self).wf(),
        ensures
            final(self).wf(),
            final(self).tweets == old(self).tweets,
            keeps_others(*old(self), *final(self)),
            (1 <= tweet_id <= old(self).tweets@.len()) <==> r is Ok,
            r is Err ==> (r matches Err(CrawlerError::Database(_)) && final(self).jobs == old(self).jobs),
            r is Ok ==> final(self).jobs@.subrange(0, old(self).jobs@.len() as int) == old(self).jobs@,
            r is Ok ==> forall|j: AnalysisJob| #[trigger] final(self).jobs@.contains(j) <==> (old(self).jobs@.contains(j)
                || is_target(j, tweet_id as int, enabled_model_ids@)),
            r matches Ok(n) ==> n == final(self).jobs@.len() - old(self).jobs@.len(),
    {
        if tweet_id < 1 || tweet_id > self.tweets.len() as i64 {
            return Err(CrawlerError::Database("unknown item".to_owned()));
        }
        Ok(self.enqueue_jobs(tweet_id, enabled_model_ids))
    }

    /// Queues the missing jobs of every stored item of one account.
    pub fn enqueue_reanalysis_for_user(&mut self, twitter_user_id: i64, enabled_model_ids: &Vec<i64>) -> (r: Result<u64, CrawlerError>)
        requires
            old(self).wf(),
        ensures
            final(self).wf(),
            final(self).tweets == old(self).tweets,
            keeps_others(*old(self), *final(self)),
            final(self).jobs@.subrange(0, old(self).jobs@.len() as int) == old(self).jobs@,
            forall|j: AnalysisJob| #[trigger] final(self).jobs@.contains(j) <==> (old(self).jobs@.contains(j)
                || targets_selected(j, old(self).tweets@, old(self).tweets@.len() as int, Some(twitter_user_id), enabled_model_ids@)),
            r matches Ok(n) && n == final(self).jobs@.len() - old(self).jobs@.len(),
    {
        Ok(self.enqueue_for_rows(Some(twitter_user_id), enabled_model_ids))
    }

    /// Queues the missing jobs of every stored item.
    pub fn enqueue_reanalysis_for_all(&mut self, enabled_model_ids: &Vec<i64>) -> (r: Result<u64, CrawlerError>)
        requires
            old(self).wf(),
        ensures
            final(self).wf(),
            final(self).tweets == old(self).tweets,
            keeps_others(*old(self), *final(self)),
            final(self).jobs@.subrange(0, old(self).jobs@.len() as int) == old(self).jobs@,
            forall|j: AnalysisJob| #[trigger] final(self).jobs@.contains(j) <==> (old(self).jobs@.contains(j)
                || targets_selected(j, old(self).tweets@, old(self).tweets@.len() as int, None, enabled_model_ids@)),
            r matches Ok(n) && n == final(self).jobs@.len() - old(self).jobs@.len(),
    {
        Ok(self.enqueue_for_rows(None, enabled_model_ids))
    }

    /// At most `limit` oldest pending requests (all of them for a negative limit).
    pub fn load_pending_reanalysis_requests(&self, limit: i64) -> (r: Result<Vec<ReanalysisRequest>, CrawlerError>)
        ensures
            r matches Ok(v) && v@ == first_pending(self.requests@, limit),
    {
        let mut out: Vec<ReanalysisRequest> = Vec::new();
        let mut i: usize = 0;
        while i < self.requests.len()
            invariant
                0 <= i <= self.requests@.len(),
                out@ == pending_requests(self.requests@.take(i as int)),
                limit >= 0 ==> out@.len() <= limit,
            decreases self.requests@.len() - i,
        {
            if limit >= 0 && out.len() as i64 == limit {
                proof {
                    lemma_pending_prefix(self.requests@, i as int, self.requests@.len() as int);
                    assert(self.requests@.take(self.requests@.len() as int) =~= self.requests@);
                }
                return Ok(out);
            }
            proof {
                assert(self.requests@.take(i as int + 1).drop_last() =~= self.requests@.take(i as int));
            }
            if self.requests[i].status == RequestStatus::Pending {
                out.push(copy_request(&self.requests[i].request));
            }
            i = i + 1;
        }
        proof {
            assert(self.requests@.take(self.requests@.len() as int) =~= self.requests@);
        }
        Ok(out)
    }

    fn set_request_status(&mut self, request_id: i64, status: RequestStatus)
        requires
            old(self).wf(),
        ensures
            final(self).wf(),
            statuses_set(old(self).requests@, final(self).requests@, request_id, status),
            final(self).tweets == old(self).tweets,
            final(self).jobs == old(self).jobs,
            final(self).checkpoints == old(self).checkpoints,
            final(self).users == old(self).users,
            final(self).models == old(self).models,
            final(self).runs == old(self).runs,
            final(self).api_errors == old(self).api_errors,
    {
        let mut i: usize = 0;
        while i < self.requests.len()
            invariant
                0 <= i <= self.requests@.len(),
                self.requests@.len() == old(self).requests@.len(),
                self.wf(),
                self.tweets == old(self).tweets,
                self.jobs == old(self).jobs,
                self.checkpoints == old(self).checkpoints,
                self.users == old(self).users,
                self.models == old(self).models,
                self.runs == old(self).runs,
                self.api_errors == old(self).api_errors,
                forall|k: int| i <= k < self.requests@.len() ==> self.requests@[k] == old(self).requests@[k],
                forall|k: int| 0 <= k < i ==> {
                    &&& (#[trigger] self.requests@[k]).request == old(self).requests@[k].request
                    &&& self.requests@[k].status == if old(self).requests@[k].request.id == request_id { status } else { old(self).requests@[k].status }
                },
            decreases self.requests@.len() - i,
        {
            if self.requests[i].request.id == request_id {
                let row = RequestRow { request: copy_request(&self.requests[i].request), status };
                self.requests.set(i, row);
            }
            i = i + 1;
        }
    }

    /// Marks the request as claimed.
    pub fn mark_reanalysis_processing(&mut self, request_id: i64) -> (r: Result<(), CrawlerError>)
        requires
            old(self).wf(),
        ensures
            r is Ok,
            final(self).wf(),
            statuses_set(old(self).requests@, final(self).requests@, request_id, RequestStatus::Processing),
            final(self).tweets == old(self).tweets,
            final(self).jobs == old(self).jobs,
            final(self).checkpoints == old(self).checkpoints,
            final(self).users == old(self).users,
            final(self).models == old(self).models,
            final(self).runs == old(self).runs,
            final(self).api_errors == old(self).api_errors,
    {
        self.set_request_status(request_id, RequestStatus::Processing);
        Ok(())
    }

    /// Marks the request as handled.
    pub fn mark_reanalysis_completed(&mut self, request_id: i64) -> (r: Result<(), CrawlerError>)
        requires
            old(self).wf(),
        ensures
            r is Ok,
            final(self).wf(),
            statuses_set(old(self).requests@, final(self).requests@, request_id, RequestStatus::Completed),
            final(self).tweets == old(self).tweets,
            final(self).jobs == old(self).jobs,
            final(self).checkpoints == old(self).checkpoints,
            final(self).users == old(self).users,
            final(self).models == old(self).models,
            final(self).runs == old(self).runs,
            final(self).api_errors == old(self).api_errors,
    {
        self.set_request_status(request_id, RequestStatus::Completed);
        Ok(())
    }

    /// Opens a run record in the running state and returns its id.
    pub fn create_crawler_run(&mut self) -> (r: Result<i64, CrawlerError>)
        requires
            old(self).wf(),
        ensures
            final(self).wf(),
            old(self).runs@.len() < ROW_LIMIT <==> r is Ok,
            r is Err ==> (r matches Err(CrawlerError::Database(_)) && final(self).runs == old(self).runs),
            r matches Ok(id) ==> {
                &&& id == old(self).runs@.len() + 1
                &&& final(self).runs@.len() == id
                &&& final(self).runs@.drop_last() == old(self).runs@
                &&& final(self).runs@.last().status == RunStatus::Running
                &&& final(self).runs@.last().tweets_fetched == 0
                &&& final(self).runs@.last().tweets_analyzed == 0
                &&& final(self).runs@.last().errors_count == 0
                &&& final(self).runs@.last().error_details@.len() == 0
            },
            final(self).tweets == old(self).tweets,
            final(self).jobs == old(self).jobs,
            final(self).checkpoints == old(self).checkpoints,
            final(self).users == old(self).users,
            final(self).models == old(self).models,
            final(self).requests == old(self).requests,
            final(self).api_errors == old(self).api_errors,
    {
        if self.runs.len() >= ROW_LIMIT {
            return Err(CrawlerError::Database("row limit reached".to_owned()));
        }
        let id = (self.runs.len() + 1) as i64;
        self.runs.push(CrawlRun {
            id,
            status: RunStatus::Running,
            tweets_fetched: 0,
            tweets_analyzed: 0,
            errors_count: 0,
            error_details: Vec::new(),
        });
        proof {
            assert(self.runs@.drop_last() =~= old(self).runs@);
            assert forall|i: int| 0 <= i < self.runs@.len() implies (#[trigger] self.runs@[i]).id == i + 1 by {
                if i < self.runs@.len() - 1 {
                    assert(self.runs@[i] == old(self).runs@[i]);
                }
            }
        }
        Ok(id)
    }

    /// Closes a run record with its outcome, counts and the errors it met;
    /// an unknown id changes nothing.
    pub fn complete_crawler_run(
        &mut self,
        run_id: i64,
        status: RunStatus,
        tweets_fetched: u64,
        tweets_analyzed: u64,
        error_details: &Vec<ApiErrorDetail>,
    ) -> (r: Result<(), CrawlerError>)
        requires
            old(self).wf(),
        ensures
            r is Ok,
            final(self).wf(),
            final(self).runs@.len() == old(self).runs@.len(),
            1 <= run_id <= old(self).runs@.len() ==> final(self).runs@ == old(self).runs@.update(
                run_id - 1,
                CrawlRun {
                    id: run_id,
                    status,
                    tweets_fetched,
                    tweets_analyzed,
                    errors_count: error_details@.len() as u64,
                    error_details: final(self).runs@[run_id - 1].error_details,
                },
            ),
            1 <= run_id <= old(self).runs@.len() ==> final(self).runs@[run_id - 1].error_details@ == error_details@,
            !(1 <= run_id <= old(self).runs@.len()) ==> final(self).runs == old(self).runs,
            final(self).tweets == old(self).tweets,
            final(self).jobs == old(self).jobs,
            final(self).checkpoints == old(self).checkpoints,
            final(self).users == old(self).users,
            final(self).models == old(self).models,
            final(self).requests == old(self).requests,
            final(self).api_errors == old(self).api_errors,
    {
        if run_id >= 1 && run_id <= self.runs.len() as i64 {
            let idx = (run_id - 1) as usize;
            let run = CrawlRun {
                id: run_id,
                status,
                tweets_fetched,
                tweets_analyzed,
                errors_count: error_details.len() as u64,
                error_details: copy_details(error_details),
            };
            self.runs.set(idx, run);
            proof {
                assert forall|i: int| 0 <= i < self.runs@.len() implies (#[trigger] self.runs@[i]).id == i + 1 by {
                    if i != idx {
                        assert(self.runs@[i] == old(self).runs@[i]);
                    }
                }
            }
        }
        Ok(())
    }

    /// Appends one entry to the standalone error log.
    pub fn insert_api_error(
        &mut self,
        error_type: &str,
        error_message: &str,
        error_code: Option<&str>,
        endpoint: Option<&str>,
        timestamp: i64,
    ) -> (r: Result<(), CrawlerError>)
        requires
            old(self).wf(),
        ensures
            r is Ok,
            final(self).wf(),
            final(self).api_errors@.len() == old(self).api_errors@.len() + 1,
            final(self).api_errors@.drop_last() == old(self).api_errors@,
            logged(final(self).api_errors@.last(), error_type@, error_message@, error_code, endpoint, timestamp),
            final(self).tweets == old(self).tweets,
            final(self).jobs == old(self).jobs,
            final(self).checkpoints == old(self).checkpoints,
            final(self).users == old(self).users,
            final(self).models == old(self).models,
            final(self).requests == old(self).requests,
            final(self).runs == old(self).runs,
    {
        let entry = ApiErrorDetail {
            error_type: error_type.to_owned(),
            message: error_message.to_owned(),
            code: text_of(error_code),
            endpoint: text_of(endpoint),
            timestamp,
        };
        self.api_errors.push(entry);
        proof {
            assert(self.api_errors@.drop_last() =~= old(self).api_errors@);
        }
        Ok(())
    }
}

} // verus!
