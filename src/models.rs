//! Data models: tracked accounts, remote API payloads and queue requests.
//!
//! Timestamps are seconds since the Unix epoch, UTC.
use vstd::prelude::*;

verus! {

/// An account that the crawler follows.
#[derive(Debug, Clone)]
pub struct TrackedUser {
    pub id: i64,
    pub twitter_id: String,
    pub username: String,
    pub display_name: String,
}

/// Answer of the batched profile lookup.
#[derive(Debug, Clone)]
pub struct TwitterUsersResponse {
    pub data: Option<Vec<TwitterApiUser>>,
    pub errors: Option<Vec<TwitterApiError>>,
}

/// A remote account profile.
#[derive(Debug, Clone)]
pub struct TwitterApiUser {
    pub id: String,
    pub name: String,
    pub username: String,
    pub public_metrics: Option<TwitterUserMetrics>,
    pub profile_image_url: Option<String>,
}

#[derive(Debug, Clone, Copy)]
pub struct TwitterUserMetrics {
    pub followers_count: Option<u64>,
    pub following_count: Option<u64>,
}

/// One page of an account's item feed.
#[derive(Debug, Clone)]
pub struct TwitterUserTweetsResponse {
    pub data: Option<Vec<TwitterApiTweet>>,
    pub meta: Option<TwitterTweetsMeta>,
    pub errors: Option<Vec<TwitterApiError>>,
}

/// A remote item; `created_at` is in seconds since the epoch.
#[derive(Debug, Clone)]
pub struct TwitterApiTweet {
    pub id: String,
    pub text: String,
    pub created_at: i64,
    pub public_metrics: Option<TwitterTweetMetrics>,
    pub referenced_tweets: Option<Vec<TwitterReferencedTweet>>,
}

#[derive(Debug, Clone, Copy)]
pub struct TwitterTweetMetrics {
    pub like_count: Option<u64>,
    pub retweet_count: Option<u64>,
    pub reply_count: Option<u64>,
    pub quote_count: Option<u64>,
}

#[derive(Debug, Clone)]
pub struct TwitterReferencedTweet {
    pub reference_type: String,
    pub id: String,
}

#[derive(Debug, Clone)]
pub struct TwitterTweetsMeta {
    pub result_count: Option<u32>,
    pub next_token: Option<String>,
}

/// A per-item error object embedded in an otherwise successful response.
#[derive(Debug, Clone)]
pub struct TwitterApiError {
    pub title: Option<String>,
    pub detail: Option<String>,
    pub type_: Option<String>,
}

/// An out-of-band request to queue items for analysis again.
#[derive(Debug, Clone)]
pub struct ReanalysisRequest {
    pub id: i64,
    pub request_type: String,
    pub tweet_id: Option<i64>,
    pub twitter_user_id: Option<i64>,
}

/// Engagement counters of an item, absent counters read as zero.
#[derive(Debug, Clone, Copy, PartialEq, Eq, Structural)]
pub struct Engagement {
    pub likes: u64,
    pub retweets: u64,
    pub replies: u64,
    pub quotes: u64,
}

pub open spec fn count_or_zero(c: Option<u64>) -> u64 {
    match c {
        Some(v) => v,
        None => 0,
    }
}

pub open spec fn engagement_spec(m: Option<TwitterTweetMetrics>) -> Engagement {
    match m {
        Some(m) => Engagement {
            likes: count_or_zero(m.like_count),
            retweets: count_or_zero(m.retweet_count),
            replies: count_or_zero(m.reply_count),
            quotes: count_or_zero(m.quote_count),
        },
        None => Engagement { likes: 0, retweets: 0, replies: 0, quotes: 0 },
    }
}

fn count_value(c: Option<u64>) -> (r: u64)
    ensures
        r == count_or_zero(c),
{
    match c {
        Some(v) => v,
        None => 0,
    }
}

/// The engagement counters of an item.
pub fn engagement_of(tweet: &TwitterApiTweet) -> (r: Engagement)
    ensures
        r == engagement_spec(tweet.public_metrics),
{
    match tweet.public_metrics {
        Some(m) => Engagement {
            likes: count_value(m.like_count),
            retweets: count_value(m.retweet_count),
            replies: count_value(m.reply_count),
            quotes: count_value(m.quote_count),
        },
        None => Engagement { likes: 0, retweets: 0, replies: 0, quotes: 0 },
    }
}

/// Whether some reference in a list has the given relation.
pub open spec fn refs_have(refs: Seq<TwitterReferencedTweet>, kind: Seq<char>) -> bool {
    exists|i: int| 0 <= i < refs.len() && (#[trigger] refs[i]).reference_type@ == kind
}

/// Whether an item references another one with the given relation.
pub open spec fn has_reference(t: TwitterApiTweet, kind: Seq<char>) -> bool {
    match t.referenced_tweets {
        Some(refs) => refs_have(refs@, kind),
        None => false,
    }
}

fn refs_contain(refs: &Vec<TwitterReferencedTweet>, kind: &str) -> (r: bool)
    ensures
        r == refs_have(refs@, kind@),
{
    let wanted = kind.to_owned();
    let mut i: usize = 0;
    while i < refs.len()
        invariant
            0 <= i <= refs@.len(),
            wanted@ == kind@,
            forall|j: int| 0 <= j < i ==> (#[trigger] refs@[j]).reference_type@ != kind@,
        decreases refs@.len() - i,
    {
        if refs[i].reference_type == wanted {
            assert(refs@[i as int].reference_type@ == kind@);
            return true;
        }
        i = i + 1;
    }
    false
}

fn references(tweet: &TwitterApiTweet, kind: &str) -> (r: bool)
    ensures
        r == has_reference(*tweet, kind@),
{
    match &tweet.referenced_tweets {
        Some(refs) => refs_contain(refs, kind),
        None => false,
    }
}

/// An item that repeats another account's post.
pub fn is_retweet(tweet: &TwitterApiTweet) -> (r: bool)
    ensures
        r == has_reference(*tweet, "retweeted"@),
{
    references(tweet, "retweeted")
}

/// An item that answers another post.
pub fn is_reply(tweet: &TwitterApiTweet) -> (r: bool)
    ensures
        r == has_reference(*tweet, "replied_to"@),
{
    references(tweet, "replied_to")
}

} // verus!
