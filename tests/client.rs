use crawler::error::{decimal_string, signed_decimal_string, classify_status, error_kind, should_abort_on_error, CrawlerError, ErrorKind};
use crawler::models::{
    is_reply, is_retweet, TwitterApiError, TwitterApiTweet, TwitterApiUser, TwitterTweetsMeta,
    TwitterUserTweetsResponse, TwitterUsersResponse,
};
use crawler::planner::{history_floor, plan_start_time};
use crawler::rate_limit::build_quota;
use crawler::twitter_api::{chunk_usernames, TweetPager, UsersAccumulator};

fn tweet(id: &str, created_at: i64) -> TwitterApiTweet {
    TwitterApiTweet { id: id.to_string(), text: "t".to_string(), created_at, public_metrics: None, referenced_tweets: None }
}

fn page(ids: &[&str], next: Option<&str>) -> TwitterUserTweetsResponse {
    TwitterUserTweetsResponse {
        data: Some(ids.iter().map(|i| tweet(i, 1)).collect()),
        meta: Some(TwitterTweetsMeta { result_count: Some(ids.len() as u32), next_token: next.map(|n| n.to_string()) }),
        errors: None,
    }
}

#[test]
fn planner_without_checkpoint_starts_at_floor() {
    assert_eq!(plan_start_time(None, 1000), 1000);
}

#[test]
fn planner_after_floor_starts_one_second_later() {
    assert_eq!(plan_start_time(Some(1500), 1000), 1501);
}

#[test]
fn planner_before_or_at_floor_starts_at_floor() {
    assert_eq!(plan_start_time(Some(900), 1000), 1000);
    assert_eq!(plan_start_time(Some(1000), 1000), 1000);
}

#[test]
fn history_floor_subtracts_days() {
    assert_eq!(history_floor(10_000_000, 90), 10_000_000 - 90 * 86400);
    assert_eq!(history_floor(5, 0), 5);
}

#[test]
fn status_classification() {
    assert!(classify_status(200, "/e", "").is_ok());
    assert!(classify_status(204, "/e", "").is_ok());
    assert!(matches!(classify_status(401, "/e", ""), Err(CrawlerError::Authentication(m)) if m == "/e"));
    assert!(matches!(classify_status(429, "/e", ""), Err(CrawlerError::RateLimitExceeded)));
    assert!(matches!(classify_status(500, "/e", "boom"), Err(CrawlerError::HttpStatus(500, e, b)) if e == "/e" && b == "boom"));
    assert!(matches!(classify_status(302, "/e", ""), Err(CrawlerError::HttpStatus(302, _, _))));
}

#[test]
fn error_kinds_and_abort_decisions() {
    let auth = CrawlerError::Authentication("x".to_string());
    let server = CrawlerError::HttpStatus(500, String::new(), String::new());
    let net = CrawlerError::Network("down".to_string());
    assert_eq!(error_kind(&auth), ErrorKind::Authentication);
    assert_eq!(error_kind(&CrawlerError::RateLimitExceeded), ErrorKind::RateLimit);
    assert_eq!(error_kind(&net), ErrorKind::Network);
    assert_eq!(error_kind(&server), ErrorKind::ApiChange);
    assert_eq!(error_kind(&CrawlerError::Config("c".to_string())), ErrorKind::Configuration);
    assert_eq!(error_kind(&CrawlerError::Database("d".to_string())), ErrorKind::Store);
    assert!(should_abort_on_error(&auth));
    assert!(should_abort_on_error(&CrawlerError::RateLimitExceeded));
    assert!(!should_abort_on_error(&server));
    assert!(!should_abort_on_error(&net));
    assert_eq!(ErrorKind::Authentication.as_str(), "auth");
    assert_eq!(ErrorKind::ApiChange.as_str(), "api_change");
    assert_eq!(ErrorKind::Other.as_str(), "other");
}

#[test]
fn zero_rate_budget_is_a_configuration_error() {
    assert!(matches!(build_quota(0), Err(CrawlerError::Config(_))));
    let quota = build_quota(450).expect("quota");
    assert_eq!(quota.burst_size().get(), 450);
    assert_eq!(quota.replenish_interval(), std::time::Duration::from_secs(2));
    assert_eq!(quota.burst_size_replenished_in(), std::time::Duration::from_secs(900));
}

#[test]
fn usernames_are_split_into_batches_of_one_hundred() {
    let names: Vec<String> = (0..250).map(|i| format!("u{i}")).collect();
    let batches = chunk_usernames(&names);
    assert_eq!(batches.iter().map(|b| b.len()).collect::<Vec<_>>(), vec![100, 100, 50]);
    assert_eq!(batches.concat(), names);
    assert!(chunk_usernames(&Vec::new()).is_empty());
    let exact: Vec<String> = (0..100).map(|i| format!("u{i}")).collect();
    assert_eq!(chunk_usernames(&exact).len(), 1);
}

#[test]
fn batch_answers_are_merged() {
    let user = |name: &str| TwitterApiUser { id: name.to_string(), name: name.to_string(), username: name.to_string(), public_metrics: None, profile_image_url: None };
    let mut acc = UsersAccumulator::new();
    acc.absorb_batch(TwitterUsersResponse { data: Some(vec![user("a")]), errors: None });
    acc.absorb_batch(TwitterUsersResponse { data: Some(vec![user("b")]), errors: Some(vec![TwitterApiError { title: None, detail: None, type_: None }]) });
    let merged = acc.finish();
    assert_eq!(merged.data.unwrap().len(), 2);
    assert_eq!(merged.errors.unwrap().len(), 1);
    let empty = UsersAccumulator::new().finish();
    assert_eq!(empty.data.unwrap().len(), 0);
    assert!(empty.errors.is_none());
}

#[test]
fn pagination_stops_after_the_page_without_token() {
    let pages = vec![page(&["t1", "t2"], Some("next")), page(&["t3"], None)];
    let mut pager = TweetPager::new();
    let mut requests = 0;
    for p in pages {
        requests += 1;
        if !pager.absorb_page(p) {
            break;
        }
    }
    assert_eq!(requests, 2);
    let result = pager.finish();
    assert_eq!(result.tweets.iter().map(|t| t.id.as_str()).collect::<Vec<_>>(), vec!["t1", "t2", "t3"]);
}

#[test]
fn page_with_token_asks_for_more() {
    let mut pager = TweetPager::new();
    assert!(pager.absorb_page(page(&["a"], Some("tok"))));
    assert_eq!(pager.next_token.as_deref(), Some("tok"));
    assert!(!pager.absorb_page(TwitterUserTweetsResponse { data: None, meta: None, errors: None }));
    assert!(pager.done);
}

#[test]
fn reference_flags() {
    let mut t = tweet("x", 1);
    assert!(!is_retweet(&t));
    t.referenced_tweets = Some(vec![crawler::models::TwitterReferencedTweet { reference_type: "retweeted".to_string(), id: "y".to_string() }]);
    assert!(is_retweet(&t));
    assert!(!is_reply(&t));
}

#[test]
fn decimal_rendering() {
    assert_eq!(decimal_string(0), "0");
    assert_eq!(decimal_string(1234567890), "1234567890");
    assert_eq!(decimal_string(u64::MAX), u64::MAX.to_string());
    assert_eq!(signed_decimal_string(-45), "-45");
    assert_eq!(signed_decimal_string(i64::MIN), i64::MIN.to_string());
}

#[test]
fn error_descriptions() {
    assert_eq!(CrawlerError::RateLimitExceeded.describe(), "Rate limit exceeded");
    assert_eq!(CrawlerError::Config("x".to_string()).describe(), "Configuration error: x");
    assert_eq!(
        CrawlerError::HttpStatus(404, "/2/users/by".to_string(), "nf".to_string()).describe(),
        "Twitter API error at /2/users/by: 404 nf"
    );
}
