use crawler::db::{Database, ModelRow, RequestStatus, RunStatus, UserRow};
use crawler::error::CrawlerError;
use crawler::models::{ReanalysisRequest, TwitterApiTweet, TwitterReferencedTweet, TwitterTweetMetrics};

const DAY: i64 = 86400;

fn tweet(id: &str, text: &str, created_at: i64) -> TwitterApiTweet {
    TwitterApiTweet {
        id: id.to_string(),
        text: text.to_string(),
        created_at,
        public_metrics: None,
        referenced_tweets: None,
    }
}

fn user(id: i64, handle: &str) -> UserRow {
    UserRow {
        id,
        twitter_id: format!("user_{id}"),
        username: handle.to_string(),
        display_name: handle.to_string(),
        avatar_url: None,
        follower_count: None,
        following_count: None,
        is_active: true,
    }
}

#[test]
fn insert_tweets_ignores_duplicates() {
    let mut db = Database::new();
    // 2024-01-10T12:00:00Z
    let tweet_time = 1_704_888_000;
    let t = tweet("tweet_1", "hello", tweet_time);

    let (first_inserted, first_jobs, _) = db.insert_tweets_and_enqueue(1, &vec![t.clone()], &vec![]).unwrap();
    let (second_inserted, second_jobs, _) = db.insert_tweets_and_enqueue(1, &vec![t], &vec![]).unwrap();

    assert_eq!(first_inserted, 1);
    assert_eq!(first_jobs, 1);
    assert_eq!(second_inserted, 0);
    assert_eq!(second_jobs, 0);
}

#[test]
fn checkpoint_updates_with_latest_timestamp() {
    let mut db = Database::new();
    db.add_user(UserRow {
        id: 5,
        twitter_id: "user_5".to_string(),
        username: "user5".to_string(),
        display_name: "User Five".to_string(),
        avatar_url: None,
        follower_count: None,
        following_count: None,
        is_active: true,
    });
    let now = chrono::Utc::now().timestamp();
    let older = now - 2 * DAY;
    let newer = now - DAY;

    db.set_checkpoint(5, older).unwrap();
    db.set_checkpoint(5, newer).unwrap();

    let stored = db.get_checkpoint(5).unwrap().expect("checkpoint missing");
    assert_eq!(stored, newer);
}

#[test]
fn repeated_ingestion_stores_one_row() {
    let mut db = Database::new();
    let t = tweet("dup", "same", 100);
    for _ in 0..5 {
        db.insert_tweets_and_enqueue(3, &vec![t.clone()], &vec![7]).unwrap();
    }
    assert_eq!(db.tweets.len(), 1);
    assert_eq!(db.jobs.len(), 1);
}

#[test]
fn duplicate_within_one_batch_is_stored_once() {
    let mut db = Database::new();
    let batch = vec![tweet("a", "x", 10), tweet("a", "x", 20), tweet("b", "y", 15)];
    let (inserted, jobs, latest) = db.insert_tweets_and_enqueue(1, &batch, &vec![]).unwrap();
    assert_eq!(inserted, 2);
    assert_eq!(jobs, 2);
    assert_eq!(latest, Some(20));
    assert_eq!(db.tweets[0].id, 1);
    assert_eq!(db.tweets[1].id, 2);
    assert_eq!(db.tweets[1].tweet_id, "b");
}

#[test]
fn empty_ingestion_reports_no_timestamp() {
    let mut db = Database::new();
    let (inserted, jobs, latest) = db.insert_tweets_and_enqueue(1, &vec![], &vec![1]).unwrap();
    assert_eq!((inserted, jobs, latest), (0, 0, None));
}

#[test]
fn fan_out_two_models_gives_two_jobs() {
    let mut db = Database::new();
    let (inserted, jobs, _) = db.insert_tweets_and_enqueue(1, &vec![tweet("t", "x", 1)], &vec![11, 12]).unwrap();
    assert_eq!(inserted, 1);
    assert_eq!(jobs, 2);
    assert_eq!(db.jobs[0].llm_model_id, Some(11));
    assert_eq!(db.jobs[1].llm_model_id, Some(12));
}

#[test]
fn fan_out_without_models_gives_one_job_with_no_model() {
    let mut db = Database::new();
    let (_, jobs, _) = db.insert_tweets_and_enqueue(1, &vec![tweet("t", "x", 1)], &vec![]).unwrap();
    assert_eq!(jobs, 1);
    assert_eq!(db.jobs[0].llm_model_id, None);
    assert_eq!(db.jobs[0].tweet_id, 1);
}

#[test]
fn reingesting_with_other_models_adds_nothing_and_reanalysis_adds_only_delta() {
    let mut db = Database::new();
    db.insert_tweets_and_enqueue(1, &vec![tweet("t", "x", 1)], &vec![11, 12]).unwrap();
    let (_, jobs, _) = db.insert_tweets_and_enqueue(1, &vec![tweet("t", "x", 1)], &vec![11, 12, 13]).unwrap();
    assert_eq!(jobs, 0);
    let added = db.enqueue_reanalysis_for_tweet(1, &vec![11, 12, 13]).unwrap();
    assert_eq!(added, 1);
    assert_eq!(db.jobs.len(), 3);
}

#[test]
fn duplicate_model_ids_queue_one_job() {
    let mut db = Database::new();
    let (_, jobs, _) = db.insert_tweets_and_enqueue(1, &vec![tweet("t", "x", 1)], &vec![4, 4]).unwrap();
    assert_eq!(jobs, 1);
}

#[test]
fn reanalysis_of_unknown_item_is_a_store_error() {
    let mut db = Database::new();
    let r = db.enqueue_reanalysis_for_tweet(9, &vec![1]);
    assert!(matches!(r, Err(CrawlerError::Database(_))));
    assert!(db.jobs.is_empty());
}

#[test]
fn reanalysis_for_user_and_all() {
    let mut db = Database::new();
    db.insert_tweets_and_enqueue(1, &vec![tweet("a", "x", 1), tweet("b", "y", 2)], &vec![]).unwrap();
    db.insert_tweets_and_enqueue(2, &vec![tweet("c", "z", 3)], &vec![]).unwrap();
    assert_eq!(db.enqueue_reanalysis_for_user(1, &vec![5]).unwrap(), 2);
    assert_eq!(db.enqueue_reanalysis_for_all(&vec![5]).unwrap(), 1);
    assert_eq!(db.enqueue_reanalysis_for_all(&vec![5]).unwrap(), 0);
}

#[test]
fn item_flags_and_engagement_are_stored() {
    let mut db = Database::new();
    let mut t = tweet("r", "reply", 5);
    t.public_metrics = Some(TwitterTweetMetrics { like_count: Some(10), retweet_count: Some(2), reply_count: None, quote_count: Some(0) });
    t.referenced_tweets = Some(vec![TwitterReferencedTweet { reference_type: "replied_to".to_string(), id: "o".to_string() }]);
    let mut rt = tweet("q", "repost", 6);
    rt.referenced_tweets = Some(vec![TwitterReferencedTweet { reference_type: "retweeted".to_string(), id: "o".to_string() }]);
    db.insert_tweets_and_enqueue(1, &vec![t, rt], &vec![]).unwrap();
    assert!(db.tweets[0].is_reply);
    assert!(!db.tweets[0].is_retweet);
    assert_eq!(db.tweets[0].engagement.likes, 10);
    assert_eq!(db.tweets[0].engagement.retweets, 2);
    assert_eq!(db.tweets[0].engagement.replies, 0);
    assert!(db.tweets[1].is_retweet);
    assert!(!db.tweets[1].is_reply);
}

#[test]
fn active_users_and_enabled_models_are_filtered() {
    let mut db = Database::new();
    db.add_user(user(1, "one"));
    let mut inactive = user(2, "two");
    inactive.is_active = false;
    db.add_user(inactive);
    db.add_user(user(3, "three"));
    db.add_model(ModelRow { id: 1, is_enabled: false });
    db.add_model(ModelRow { id: 2, is_enabled: true });
    let active = db.load_active_users().unwrap();
    assert_eq!(active.len(), 2);
    assert_eq!(active[0].username, "one");
    assert_eq!(active[1].username, "three");
    assert_eq!(db.get_enabled_model_ids().unwrap(), vec![2]);
}

#[test]
fn profile_refresh_keeps_fields_not_given() {
    let mut db = Database::new();
    let mut u = user(1, "one");
    u.avatar_url = Some("old.png".to_string());
    u.follower_count = Some(3);
    db.add_user(u);
    db.add_user(user(2, "two"));
    db.update_user_from_api("one", "x1", Some("One"), None, Some(9), None).unwrap();
    assert_eq!(db.users[0].twitter_id, "x1");
    assert_eq!(db.users[0].display_name, "One");
    assert_eq!(db.users[0].avatar_url, Some("old.png".to_string()));
    assert_eq!(db.users[0].follower_count, Some(9));
    assert_eq!(db.users[0].following_count, None);
    assert_eq!(db.users[1].twitter_id, "user_2");
}

fn request(id: i64, kind: &str, tweet_id: Option<i64>, user_id: Option<i64>) -> ReanalysisRequest {
    ReanalysisRequest { id, request_type: kind.to_string(), tweet_id, twitter_user_id: user_id }
}

#[test]
fn pending_requests_come_oldest_first_up_to_the_limit() {
    let mut db = Database::new();
    for i in 1..=4 {
        db.add_reanalysis_request(request(i, "all", None, None));
    }
    db.mark_reanalysis_completed(2).unwrap();
    let pending = db.load_pending_reanalysis_requests(2).unwrap();
    assert_eq!(pending.iter().map(|r| r.id).collect::<Vec<_>>(), vec![1, 3]);
    let all = db.load_pending_reanalysis_requests(-1).unwrap();
    assert_eq!(all.len(), 3);
    db.mark_reanalysis_processing(3).unwrap();
    assert_eq!(db.requests[2].status, RequestStatus::Processing);
    assert_eq!(db.load_pending_reanalysis_requests(25).unwrap().len(), 2);
}

#[test]
fn run_records_open_and_close() {
    let mut db = Database::new();
    let id = db.create_crawler_run().unwrap();
    assert_eq!(id, 1);
    assert_eq!(db.runs[0].status, RunStatus::Running);
    db.complete_crawler_run(id, RunStatus::Completed, 4, 6, &vec![]).unwrap();
    assert_eq!(db.runs[0].status, RunStatus::Completed);
    assert_eq!(db.runs[0].tweets_fetched, 4);
    assert_eq!(db.runs[0].tweets_analyzed, 6);
    assert_eq!(db.runs[0].errors_count, 0);
    assert_eq!(RunStatus::Failed.as_str(), "failed");
}

#[test]
fn error_log_appends_entries() {
    let mut db = Database::new();
    db.insert_api_error("auth", "bad token", Some("E1"), None, 77).unwrap();
    assert_eq!(db.api_errors.len(), 1);
    assert_eq!(db.api_errors[0].error_type, "auth");
    assert_eq!(db.api_errors[0].code, Some("E1".to_string()));
    assert_eq!(db.api_errors[0].endpoint, None);
    assert_eq!(db.api_errors[0].timestamp, 77);
}

