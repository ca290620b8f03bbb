//! The decisions of the remote API client: splitting profile lookups into
//! batches, merging batch answers, and following the continuation token of
//! the item feed. The transport itself lives outside the library.
use vstd::prelude::*;
use crate::models::{TwitterApiError, TwitterApiTweet, TwitterApiUser, TwitterUserTweetsResponse, TwitterUsersResponse};

verus! {

/// Largest number of handles one profile lookup may carry.
pub const USERS_BATCH_LIMIT: usize = 100;

/// Largest number of items one feed page may carry.
pub const TWEETS_PAGE_SIZE: u32 = 100;

/// Endpoint label of the profile lookup.
pub const USERS_ENDPOINT: &'static str = "/2/users/by";

/// Endpoint label of the item feed.
pub const TWEETS_ENDPOINT: &'static str = "/2/users/:id/tweets";

/// What a whole feed walk gathered: the items of every page and the
/// per-item errors embedded in them.
pub struct TweetFetchResult {
    pub tweets: Vec<TwitterApiTweet>,
    pub errors: Vec<TwitterApiError>,
}

/// The entries of an optional list, empty when absent.
pub open spec fn entries<T>(v: Option<Vec<T>>) -> Seq<T> {
    match v {
        Some(v) => v@,
        None => Seq::empty(),
    }
}

/// The continuation token that a feed page carries.
pub open spec fn page_token(page: TwitterUserTweetsResponse) -> Option<String> {
    match page.meta {
        Some(m) => m.next_token,
        None => None,
    }
}

/// The concatenation of a list of batches.
pub open spec fn flatten(batches: Seq<Vec<String>>) -> Seq<String>
    decreases batches.len(),
{
    if batches.len() == 0 {
        Seq::empty()
    } else {
        flatten(batches.drop_last()) + batches.last()@
    }
}

fn append_all<T>(dst: &mut Vec<T>, src: Vec<T>)
    ensures
        final(dst)@ == old(dst)@ + src@,
{
    let mut src = src;
    dst.append(&mut src);
}

/// Splits handles into lookup batches of at most the batch limit, in order:
/// every batch but the last is full and none is empty.
pub fn chunk_usernames(usernames: &Vec<String>) -> (r: Vec<Vec<String>>)
    ensures
        flatten(r@) == usernames@,
        r@.len() == (usernames@.len() + USERS_BATCH_LIMIT - 1) / (USERS_BATCH_LIMIT as int),
        forall|k: int| 0 <= k < r@.len() ==> 0 < (#[trigger] r@[k])@.len() <= USERS_BATCH_LIMIT,
        forall|k: int| 0 <= k < r@.len() - 1 ==> (#[trigger] r@[k])@.len() == USERS_BATCH_LIMIT,
{
    let mut out: Vec<Vec<String>> = Vec::new();
    let mut i: usize = 0;
    while i < usernames.len()
        invariant
            0 <= i <= usernames@.len(),
            i == out@.len() * USERS_BATCH_LIMIT || i == usernames@.len(),
            i < usernames@.len() ==> i == out@.len() * USERS_BATCH_LIMIT,
            i == usernames@.len() ==> out@.len() == (usernames@.len() + USERS_BATCH_LIMIT - 1) / (USERS_BATCH_LIMIT as int),
            flatten(out@) == usernames@.take(i as int),
            forall|k: int| 0 <= k < out@.len() ==> 0 < (#[trigger] out@[k])@.len() <= USERS_BATCH_LIMIT,
            forall|k: int| 0 <= k < out@.len() - 1 ==> (#[trigger] out@[k])@.len() == USERS_BATCH_LIMIT,
            i < usernames@.len() ==> forall|k: int| 0 <= k < out@.len() ==> (#[trigger] out@[k])@.len() == USERS_BATCH_LIMIT,
        decreases usernames@.len() - i,
    {
        let end: usize = if usernames.len() - i > USERS_BATCH_LIMIT { i + USERS_BATCH_LIMIT } else { usernames.len() };
        let mut batch: Vec<String> = Vec::new();
        let mut j: usize = i;
        while j < end
            invariant
                i <= j <= end <= usernames@.len(),
                batch@ == usernames@.subrange(i as int, j as int),
            decreases end - j,
        {
            batch.push(usernames[j].clone());
            proof {
                assert(batch@ =~= usernames@.subrange(i as int, j + 1));
            }
            j = j + 1;
        }
        let ghost before = out@;
        out.push(batch);
        proof {
            assert(out@.drop_last() == before);
            assert(usernames@.take(end as int) =~= usernames@.take(i as int) + usernames@.subrange(i as int, end as int));
            if end == usernames.len() {
                assert(out@.len() == (usernames@.len() + USERS_BATCH_LIMIT - 1) / (USERS_BATCH_LIMIT as int)) by (nonlinear_arith)
                    requires
                        out@.len() == before.len() + 1,
                        i == before.len() * 100,
                        0 < usernames@.len() - i <= 100,
                        USERS_BATCH_LIMIT == 100;
            }
            assert forall|k: int| 0 <= k < out@.len() implies 0 < (#[trigger] out@[k])@.len() <= USERS_BATCH_LIMIT by {
                if k < before.len() {
                    assert(out@[k] == before[k]);
                }
            }
            assert forall|k: int| 0 <= k < out@.len() - 1 implies (#[trigger] out@[k])@.len() == USERS_BATCH_LIMIT by {
                assert(out@[k] == before[k]);
            }
            if end < usernames.len() {
                assert(end == out@.len() * USERS_BATCH_LIMIT) by (nonlinear_arith)
                    requires
                        out@.len() == before.len() + 1,
                        i == before.len() * 100,
                        end == i + 100,
                        USERS_BATCH_LIMIT == 100;
                assert forall|k: int| 0 <= k < out@.len() implies (#[trigger] out@[k])@.len() == USERS_BATCH_LIMIT by {
                    if k < before.len() {
                        assert(out@[k] == before[k]);
                    }
                }
            }
        }
        i = end;
    }
    proof {
        assert(usernames@.take(usernames@.len() as int) =~= usernames@);
    }
    out
}

/// Gathers the answers of the profile lookup batches.
pub struct UsersAccumulator {
    pub users: Vec<TwitterApiUser>,
    pub errors: Vec<TwitterApiError>,
}

impl UsersAccumulator {
    pub fn new() -> (r: UsersAccumulator)
        ensures
            r.users@.len() == 0,
            r.errors@.len() == 0,
    {
        UsersAccumulator { users: Vec::new(), errors: Vec::new() }
    }

    /// Adds one batch answer: its profiles and its per-item errors.
    pub fn absorb_batch(&mut self, response: TwitterUsersResponse)
        ensures
            final(self).users@ == old(self).users@ + entries(response.data),
            final(self).errors@ == old(self).errors@ + entries(response.errors),
    {
        match response.data {
            Some(users) => append_all(&mut self.users, users),
            None => {},
        }
        match response.errors {
            Some(errors) => append_all(&mut self.errors, errors),
            None => {},
        }
    }

    /// The union of all batch answers; the error list is absent when empty.
    pub fn finish(self) -> (r: TwitterUsersResponse)
        ensures
            r.data == Some(self.users),
            self.errors@.len() == 0 ==> r.errors is None,
            self.errors@.len() > 0 ==> r.errors == Some(self.errors),
    {
        let errors = if self.errors.len() == 0 { None } else { Some(self.errors) };
        TwitterUsersResponse { data: Some(self.users), errors }
    }
}

/// Walks an account's item feed page by page.
pub struct TweetPager {
    pub tweets: Vec<TwitterApiTweet>,
    pub errors: Vec<TwitterApiError>,
    /// The token to send with the next page request; `None` before the first
    /// page and after the last.
    pub next_token: Option<String>,
    /// Whether the last page has been seen.
    pub done: bool,
}

/// The pager after one page: the page's items and errors are appended, its
/// token is kept, and the walk ends when the page carries no token.
pub open spec fn absorbed(before: TweetPager, page: TwitterUserTweetsResponse, after: TweetPager) -> bool {
    &&& after.tweets@ == before.tweets@ + entries(page.data)
    &&& after.errors@ == before.errors@ + entries(page.errors)
    &&& after.next_token == page_token(page)
    &&& after.done == (page_token(page) is None)
}

impl TweetPager {
    /// A walk that has not requested any page yet.
    pub fn new() -> (r: TweetPager)
        ensures
            r.tweets@.len() == 0,
            r.errors@.len() == 0,
            r.next_token is None,
            !r.done,
    {
        TweetPager { tweets: Vec::new(), errors: Vec::new(), next_token: None, done: false }
    }

    /// Takes in one page; returns whether another page must be requested.
    pub fn absorb_page(&mut self, page: TwitterUserTweetsResponse) -> (more: bool)
        requires
            !old(self).done,
        ensures
            absorbed(*old(self), page, *final(self)),
            more == !final(self).done,
    {
        let token = match &page.meta {
            Some(m) => clone_token(&m.next_token),
            None => None,
        };
        match page.data {
            Some(tweets) => append_all(&mut self.tweets, tweets),
            None => {},
        }
        match page.errors {
            Some(errors) => append_all(&mut self.errors, errors),
            None => {},
        }
        let more = token.is_some();
        self.next_token = token;
        self.done = !more;
        more
    }

    /// Everything the walk gathered.
    pub fn finish(self) -> (r: TweetFetchResult)
        ensures
            r.tweets == self.tweets,
            r.errors == self.errors,
    {
        TweetFetchResult { tweets: self.tweets, errors: self.errors }
    }
}

fn clone_token(t: &Option<String>) -> (r: Option<String>)
    ensures
        r == *t,
{
    match t {
        Some(v) => Some(v.clone()),
        None => None,
    }
}

/// A feed walk stops exactly at the first page without a continuation token:
/// after a page that carries one the pager asks for more, after one that
/// carries none it stops, and it then holds the items of both pages in order.
pub proof fn lemma_pagination_stops(
    start: TweetPager,
    first: TwitterUserTweetsResponse,
    middle: TweetPager,
    second: TwitterUserTweetsResponse,
    end: TweetPager,
)
    requires
        start.tweets@.len() == 0,
        absorbed(start, first, middle),
        absorbed(middle, second, end),
        page_token(first) is Some,
        page_token(second) is None,
    ensures
        !middle.done,
        end.done,
        end.tweets@ == entries(first.data) + entries(second.data),
{
    assert(end.tweets@ =~= entries(first.data) + entries(second.data));
}

} // verus!
