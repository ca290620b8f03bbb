use std::sync::atomic::AtomicBool;

use crawler::cycle::{
    find_profile, finish_cycle, process_reanalysis_requests, request_kind, AccountPass, AppState, CycleState, RequestKind,
};
use crawler::db::{Database, ModelRow, RequestStatus, RunStatus, UserRow};
use crawler::error::CrawlerError;
use crawler::models::{ReanalysisRequest, TwitterApiError, TwitterApiTweet, TwitterApiUser, TwitterUsersResponse};
use crawler::planner::history_floor;
use crawler::twitter_api::TweetFetchResult;

const NOW: i64 = 1_717_000_000;

fn tweet(id: &str, created_at: i64) -> TwitterApiTweet {
    TwitterApiTweet { id: id.to_string(), text: "t".to_string(), created_at, public_metrics: None, referenced_tweets: None }
}

fn row(id: i64, handle: &str) -> UserRow {
    UserRow {
        id,
        twitter_id: String::new(),
        username: handle.to_string(),
        display_name: handle.to_string(),
        avatar_url: None,
        follower_count: None,
        following_count: None,
        is_active: true,
    }
}

fn profile(id: &str, handle: &str) -> TwitterApiUser {
    TwitterApiUser { id: id.to_string(), name: handle.to_uppercase(), username: handle.to_string(), public_metrics: None, profile_image_url: None }
}

fn pass_for(db: &mut Database, state: &mut CycleState, profiles: Vec<TwitterApiUser>) -> AccountPass {
    let users = db.load_active_users().unwrap();
    let response = TwitterUsersResponse { data: Some(profiles), errors: None };
    AccountPass::begin(db, state, users, response, history_floor(NOW, 90))
}

#[test]
fn end_to_end_one_account() {
    let mut db = Database::new();
    db.add_user(row(1, "alice"));
    db.add_model(ModelRow { id: 3, is_enabled: true });
    let models = db.get_enabled_model_ids().unwrap();
    db.insert_tweets_and_enqueue(1, &vec![tweet("old", NOW - 500)], &models).unwrap();
    let jobs_before = db.jobs.len();
    let run_id = db.create_crawler_run().unwrap();
    let mut state = CycleState::new(NOW);
    let shutdown = false;
    let mut pass = pass_for(&mut db, &mut state, vec![profile("x1", "alice")]);

    let req = pass.next_fetch(&mut db, &mut state, shutdown).expect("fetch");
    assert_eq!(req.twitter_id, "x1");
    assert_eq!(req.start_time, NOW - 90 * 86400);
    let fetched = TweetFetchResult {
        tweets: vec![tweet("n1", NOW - 100), tweet("old", NOW - 500), tweet("n2", NOW - 50)],
        errors: vec![],
    };
    pass.on_fetch_result(&mut db, &mut state, &req, Ok(fetched), &models).unwrap();
    assert!(pass.next_fetch(&mut db, &mut state, shutdown).is_none());
    finish_cycle(&mut db, &mut state, run_id, Ok(())).unwrap();

    assert_eq!(state.tweets_fetched, 2);
    assert_eq!(state.tweets_queued, 2);
    assert_eq!(db.jobs.len() - jobs_before, 2);
    assert_eq!(db.get_checkpoint(1).unwrap(), Some(NOW - 50));
    assert_eq!(db.users[0].twitter_id, "x1");
    assert_eq!(db.users[0].display_name, "ALICE");
    assert_eq!(db.runs[0].status, RunStatus::Completed);
    assert_eq!(db.runs[0].tweets_fetched, 2);
    assert_eq!(db.runs[0].tweets_analyzed, 2);
}

#[test]
fn checkpoint_moves_past_seen_items_on_next_cycle() {
    let mut db = Database::new();
    db.add_user(row(1, "alice"));
    db.set_checkpoint(1, NOW - 10).unwrap();
    let mut state = CycleState::new(NOW);
    let shutdown = false;
    let mut pass = pass_for(&mut db, &mut state, vec![profile("x1", "alice")]);
    let req = pass.next_fetch(&mut db, &mut state, shutdown).unwrap();
    assert_eq!(req.start_time, NOW - 9);
    let fetched = TweetFetchResult { tweets: vec![], errors: vec![] };
    pass.on_fetch_result(&mut db, &mut state, &req, Ok(fetched), &vec![]).unwrap();
    assert_eq!(db.get_checkpoint(1).unwrap(), Some(NOW - 10));
}

#[test]
fn checkpoint_never_moves_backward() {
    let mut db = Database::new();
    db.add_user(row(1, "alice"));
    db.set_checkpoint(1, NOW - 10).unwrap();
    let mut state = CycleState::new(NOW);
    let mut pass = pass_for(&mut db, &mut state, vec![profile("x1", "alice")]);
    let req = pass.next_fetch(&mut db, &mut state, false).unwrap();
    let fetched = TweetFetchResult { tweets: vec![tweet("stale", NOW - 1000)], errors: vec![] };
    pass.on_fetch_result(&mut db, &mut state, &req, Ok(fetched), &vec![]).unwrap();
    assert_eq!(db.get_checkpoint(1).unwrap(), Some(NOW - 10));
}

#[test]
fn fetch_error_entry_names_account_and_endpoint() {
    let mut db = Database::new();
    db.add_user(row(1, "a"));
    let mut state = CycleState::new(NOW);
    let mut pass = pass_for(&mut db, &mut state, vec![profile("x1", "a")]);
    let req = pass.next_fetch(&mut db, &mut state, false).unwrap();
    let r = pass.on_fetch_result(&mut db, &mut state, &req, Err(CrawlerError::RateLimitExceeded), &vec![]);
    assert!(matches!(r, Err(CrawlerError::RateLimitExceeded)));
    assert_eq!(state.error_details[0].message, "Failed fetching tweets for @a");
    assert_eq!(state.error_details[0].endpoint.as_deref(), Some("/2/users/:id/tweets"));
    assert_eq!(state.error_details[0].error_type, "rate_limit");
}

#[test]
fn cycle_error_text_is_recorded() {
    let mut db = Database::new();
    let run_id = db.create_crawler_run().unwrap();
    let mut state = CycleState::new(NOW);
    let r = finish_cycle(&mut db, &mut state, run_id, Err(CrawlerError::HttpStatus(503, "/2/users/by".to_string(), "busy".to_string())));
    assert!(matches!(r, Err(CrawlerError::HttpStatus(503, _, _))));
    assert_eq!(state.error_details[0].message, "Crawler cycle error: Twitter API error at /2/users/by: 503 busy");
    assert_eq!(state.error_details[0].error_type, "api_change");
    assert_eq!(db.runs[0].status, RunStatus::Failed);
}

#[test]
fn authentication_error_aborts_remaining_accounts() {
    let mut db = Database::new();
    db.add_user(row(1, "a"));
    db.add_user(row(2, "b"));
    let mut state = CycleState::new(NOW);
    let shutdown = false;
    let mut pass = pass_for(&mut db, &mut state, vec![profile("x1", "a"), profile("x2", "b")]);
    let req = pass.next_fetch(&mut db, &mut state, shutdown).unwrap();
    let r = pass.on_fetch_result(&mut db, &mut state, &req, Err(CrawlerError::Authentication("401".to_string())), &vec![]);
    assert!(matches!(r, Err(CrawlerError::Authentication(_))));
    assert!(pass.is_finished());
    assert!(pass.next_fetch(&mut db, &mut state, shutdown).is_none());
    assert_eq!(state.error_details[0].message, "Failed fetching tweets for @a");
    assert_eq!(state.status, RunStatus::Failed);
    assert_eq!(state.error_details.len(), 1);
    assert_eq!(state.error_details[0].error_type, "auth");
    let run_id = db.create_crawler_run().unwrap();
    assert!(finish_cycle(&mut db, &mut state, run_id, r).is_err());
    assert_eq!(db.runs[0].status, RunStatus::Failed);
    assert_eq!(db.runs[0].errors_count, 2);
}

#[test]
fn server_error_skips_only_that_account() {
    let mut db = Database::new();
    db.add_user(row(1, "a"));
    db.add_user(row(2, "b"));
    let mut state = CycleState::new(NOW);
    let shutdown = false;
    let mut pass = pass_for(&mut db, &mut state, vec![profile("x1", "a"), profile("x2", "b")]);
    let req = pass.next_fetch(&mut db, &mut state, shutdown).unwrap();
    let r = pass.on_fetch_result(&mut db, &mut state, &req, Err(CrawlerError::HttpStatus(500, "/2/users/:id/tweets".to_string(), "oops".to_string())), &vec![]);
    assert!(r.is_ok());
    assert_eq!(state.error_details.len(), 1);
    assert_eq!(state.error_details[0].error_type, "api_change");
    let next = pass.next_fetch(&mut db, &mut state, shutdown).expect("second account");
    assert_eq!(next.twitter_user_id, 2);
    assert_eq!(state.status, RunStatus::Completed);
}

#[test]
fn account_missing_from_profiles_is_skipped_and_logged() {
    let mut db = Database::new();
    db.add_user(row(1, "gone"));
    db.add_user(row(2, "here"));
    let mut state = CycleState::new(NOW);
    let shutdown = false;
    let mut pass = pass_for(&mut db, &mut state, vec![profile("x2", "here")]);
    let req = pass.next_fetch(&mut db, &mut state, shutdown).unwrap();
    assert_eq!(req.twitter_user_id, 2);
    assert_eq!(state.error_details.len(), 1);
    assert_eq!(state.error_details[0].message, "Twitter user not found: @gone");
    assert_eq!(state.error_details[0].endpoint.as_deref(), Some("/2/users/by"));
    assert_eq!(db.get_checkpoint(1).unwrap(), None);
}

#[test]
fn partial_errors_are_recorded_not_fatal() {
    let mut db = Database::new();
    db.add_user(row(1, "a"));
    let mut state = CycleState::new(NOW);
    let shutdown = false;
    let users = db.load_active_users().unwrap();
    let response = TwitterUsersResponse {
        data: Some(vec![profile("x1", "a")]),
        errors: Some(vec![TwitterApiError { title: Some("Not Found".to_string()), detail: None, type_: Some("t".to_string()) }]),
    };
    let mut pass = AccountPass::begin(&mut db, &mut state, users, response, 0);
    assert_eq!(state.error_details[0].message, "Not Found: Unknown error");
    assert_eq!(state.error_details[0].code, Some("t".to_string()));
    assert_eq!(state.error_details[0].endpoint.as_deref(), Some("/2/users/by"));
    let req = pass.next_fetch(&mut db, &mut state, shutdown).unwrap();
    let fetched = TweetFetchResult {
        tweets: vec![tweet("k", 5)],
        errors: vec![TwitterApiError { title: None, detail: Some("gone".to_string()), type_: None }],
    };
    assert!(pass.on_fetch_result(&mut db, &mut state, &req, Ok(fetched), &vec![]).is_ok());
    assert_eq!(state.error_details.len(), 2);
    assert_eq!(state.error_details[1].message, "Twitter API error: gone");
    assert_eq!(state.tweets_fetched, 1);
}

#[test]
fn shutdown_stops_the_account_loop() {
    let mut db = Database::new();
    db.add_user(row(1, "a"));
    let mut state = CycleState::new(NOW);
    let shutdown = true;
    let mut pass = pass_for(&mut db, &mut state, vec![profile("x1", "a")]);
    assert!(pass.next_fetch(&mut db, &mut state, shutdown).is_none());
    assert_eq!(state.status, RunStatus::Failed);
    assert_eq!(state.error_details[0].message, "Shutdown requested");
}

#[test]
fn reanalysis_of_an_account() {
    let mut db = Database::new();
    db.add_user(row(1, "a"));
    db.add_model(ModelRow { id: 8, is_enabled: true });
    db.insert_tweets_and_enqueue(1, &vec![tweet("p", 1), tweet("q", 2), tweet("r", 3)], &vec![]).unwrap();
    db.insert_tweets_and_enqueue(2, &vec![tweet("other", 4)], &vec![]).unwrap();
    let jobs_before = db.jobs.len();
    db.add_reanalysis_request(ReanalysisRequest { id: 1, request_type: "account".to_string(), tweet_id: None, twitter_user_id: Some(1) });
    let models = db.get_enabled_model_ids().unwrap();
    let mut state = CycleState::new(NOW);
    process_reanalysis_requests(&mut db, &mut state, &models, &AtomicBool::new(false)).unwrap();
    assert_eq!(db.jobs.len() - jobs_before, 3);
    assert!(db.jobs[jobs_before..].iter().all(|j| j.llm_model_id == Some(8) && j.tweet_id <= 3));
    assert_eq!(db.requests[0].status, RequestStatus::Completed);
    assert!(state.error_details.is_empty());
}

#[test]
fn malformed_reanalysis_request_is_logged_and_completed() {
    let mut db = Database::new();
    db.add_reanalysis_request(ReanalysisRequest { id: 1, request_type: "tweet".to_string(), tweet_id: None, twitter_user_id: None });
    db.add_reanalysis_request(ReanalysisRequest { id: 2, request_type: "bogus".to_string(), tweet_id: None, twitter_user_id: None });
    let mut state = CycleState::new(NOW);
    process_reanalysis_requests(&mut db, &mut state, &vec![], &AtomicBool::new(false)).unwrap();
    assert_eq!(state.error_details.len(), 2);
    assert_eq!(state.error_details[0].error_type, "config");
    assert_eq!(state.error_details[0].message, "Failed reanalysis request 1");
    assert_eq!(state.error_details[1].message, "Failed reanalysis request 2");
    assert_eq!(db.requests[0].status, RequestStatus::Completed);
    assert_eq!(db.requests[1].status, RequestStatus::Completed);
}

#[test]
fn shutdown_stops_the_reanalysis_drain() {
    let mut db = Database::new();
    db.add_reanalysis_request(ReanalysisRequest { id: 1, request_type: "all".to_string(), tweet_id: None, twitter_user_id: None });
    let mut state = CycleState::new(NOW);
    process_reanalysis_requests(&mut db, &mut state, &vec![], &AtomicBool::new(true)).unwrap();
    assert_eq!(state.status, RunStatus::Failed);
    assert_eq!(db.api_errors.len(), 1);
    assert_eq!(db.api_errors[0].message, "Shutdown requested");
    assert_eq!(db.requests[0].status, RequestStatus::Pending);
    assert_eq!(state.error_details[0].error_type, "other");
}

#[test]
fn request_kinds() {
    assert_eq!(request_kind(&"tweet".to_string()), RequestKind::Tweet);
    assert_eq!(request_kind(&"item".to_string()), RequestKind::Tweet);
    assert_eq!(request_kind(&"user".to_string()), RequestKind::User);
    assert_eq!(request_kind(&"account".to_string()), RequestKind::User);
    assert_eq!(request_kind(&"all".to_string()), RequestKind::All);
    assert_eq!(request_kind(&"x".to_string()), RequestKind::Unknown);
}

#[test]
fn single_flight_guard_drops_overlapping_trigger() {
    let mut guard = AppState::new();
    assert!(guard.try_begin());
    assert!(!guard.try_begin());
    guard.finish();
    assert!(guard.try_begin());
}

#[test]
fn last_profile_of_a_handle_wins() {
    let profiles = vec![profile("1", "a"), profile("2", "b"), profile("3", "a")];
    assert_eq!(find_profile(&profiles, &"a".to_string()), Some(2));
    assert_eq!(find_profile(&profiles, &"z".to_string()), None);
}

#[test]
fn reanalysis_of_unknown_item_is_a_store_error_entry() {
    let mut db = Database::new();
    db.add_reanalysis_request(ReanalysisRequest { id: 42, request_type: "tweet".to_string(), tweet_id: Some(9), twitter_user_id: None });
    let mut state = CycleState::new(NOW);
    process_reanalysis_requests(&mut db, &mut state, &vec![], &AtomicBool::new(false)).unwrap();
    assert_eq!(state.error_details[0].error_type, "database");
    assert_eq!(state.error_details[0].message, "Failed reanalysis request 42");
    assert_eq!(db.requests[0].status, RequestStatus::Completed);
}
