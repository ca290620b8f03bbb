//! Error taxonomy of the crawler and the classification of HTTP outcomes.
use vstd::prelude::*;
use vstd::string::StringExecFns;

verus! {

/// Closed set of error categories used for logging and for abort decisions.
#[derive(Clone, Copy, Debug, PartialEq, Eq, Structural)]
pub enum ErrorKind {
    Authentication,
    RateLimit,
    Network,
    ApiChange,
    Configuration,
    Store,
    Other,
}

/// Crawler errors.
#[derive(Clone, Debug)]
pub enum CrawlerError {
    /// The remote API answered with an unexpected shape.
    TwitterApi(String),
    /// The remote API answered with a non-success status (status, endpoint, body).
    HttpStatus(u16, String, String),
    RateLimitExceeded,
    Authentication(String),
    Database(String),
    LlmInference(String),
    Config(String),
    Network(String),
}

/// The category that an error belongs to.
pub open spec fn kind_of(e: CrawlerError) -> ErrorKind {
    match e {
        CrawlerError::RateLimitExceeded => ErrorKind::RateLimit,
        CrawlerError::Authentication(_) => ErrorKind::Authentication,
        CrawlerError::Network(_) => ErrorKind::Network,
        CrawlerError::TwitterApi(_) => ErrorKind::ApiChange,
        CrawlerError::HttpStatus(_, _, _) => ErrorKind::ApiChange,
        CrawlerError::Config(_) => ErrorKind::Configuration,
        CrawlerError::Database(_) => ErrorKind::Store,
        CrawlerError::LlmInference(_) => ErrorKind::Other,
    }
}

/// Whether an error kind means that every later call of the cycle would fail too.
pub open spec fn aborts_cycle(k: ErrorKind) -> bool {
    k == ErrorKind::Authentication || k == ErrorKind::RateLimit
}

impl ErrorKind {
    /// The label stored in error logs.
    pub fn as_str(&self) -> (r: &'static str)
        ensures
            *self == ErrorKind::Authentication ==> r@ == "auth"@,
            *self == ErrorKind::RateLimit ==> r@ == "rate_limit"@,
            *self == ErrorKind::Network ==> r@ == "network"@,
            *self == ErrorKind::ApiChange ==> r@ == "api_change"@,
            *self == ErrorKind::Configuration ==> r@ == "config"@,
            *self == ErrorKind::Store ==> r@ == "database"@,
            *self == ErrorKind::Other ==> r@ == "other"@,
    {
        match self {
            ErrorKind::Authentication => "auth",
            ErrorKind::RateLimit => "rate_limit",
            ErrorKind::Network => "network",
            ErrorKind::ApiChange => "api_change",
            ErrorKind::Configuration => "config",
            ErrorKind::Store => "database",
            ErrorKind::Other => "other",
        }
    }
}

/// The category of an error.
pub fn error_kind(error: &CrawlerError) -> (r: ErrorKind)
    ensures
        r == kind_of(*error),
{
    match error {
        CrawlerError::RateLimitExceeded => ErrorKind::RateLimit,
        CrawlerError::Authentication(_) => ErrorKind::Authentication,
        CrawlerError::Network(_) => ErrorKind::Network,
        CrawlerError::TwitterApi(_) => ErrorKind::ApiChange,
        CrawlerError::HttpStatus(_, _, _) => ErrorKind::ApiChange,
        CrawlerError::Config(_) => ErrorKind::Configuration,
        CrawlerError::Database(_) => ErrorKind::Store,
        CrawlerError::LlmInference(_) => ErrorKind::Other,
    }
}

/// Whether a whole-call error aborts the rest of the cycle.
pub fn should_abort_on_error(error: &CrawlerError) -> (r: bool)
    ensures
        r == aborts_cycle(kind_of(*error)),
        r == (error is RateLimitExceeded || error is Authentication),
{
    match error {
        CrawlerError::RateLimitExceeded => true,
        CrawlerError::Authentication(_) => true,
        _ => false,
    }
}

/// HTTP status meaning the credential was refused.
pub const STATUS_UNAUTHORIZED: u16 = 401;

/// HTTP status meaning the server-side rate limit was hit.
pub const STATUS_TOO_MANY_REQUESTS: u16 = 429;

/// Maps an HTTP status (and the response body) to the error taxonomy:
/// any 2xx status is a success.
pub fn classify_status(status: u16, endpoint: &str, body: &str) -> (r: Result<(), CrawlerError>)
    ensures
        200 <= status < 300 <==> r is Ok,
        status == STATUS_UNAUTHORIZED ==> (r matches Err(CrawlerError::Authentication(m))
            && m@ == endpoint@),
        status == STATUS_TOO_MANY_REQUESTS ==> r == Err::<(), CrawlerError>(
            CrawlerError::RateLimitExceeded,
        ),
        !(200 <= status < 300) && status != STATUS_UNAUTHORIZED && status
            != STATUS_TOO_MANY_REQUESTS ==> (r matches Err(CrawlerError::HttpStatus(s, e, b)) && s
            == status && e@ == endpoint@ && b@ == body@),
{
    if 200 <= status && status < 300 {
        Ok(())
    } else if status == STATUS_UNAUTHORIZED {
        Err(CrawlerError::Authentication(endpoint.to_owned()))
    } else if status == STATUS_TOO_MANY_REQUESTS {
        Err(CrawlerError::RateLimitExceeded)
    } else {
        Err(CrawlerError::HttpStatus(status, endpoint.to_owned(), body.to_owned()))
    }
}


/// The decimal digit character of a value below ten.
pub open spec fn digit_char(d: nat) -> char {
    if d == 0 { '0' } else if d == 1 { '1' } else if d == 2 { '2' } else if d == 3 { '3' } else if d == 4 {
        '4'
    } else if d == 5 { '5' } else if d == 6 { '6' } else if d == 7 { '7' } else if d == 8 { '8' } else { '9' }
}

/// The decimal notation of a natural number.
pub open spec fn decimal(n: nat) -> Seq<char>
    decreases n,
{
    if n < 10 {
        seq![digit_char(n)]
    } else {
        decimal(n / 10).push(digit_char(n % 10))
    }
}

/// The decimal notation of an integer, with a leading minus when negative.
pub open spec fn signed_decimal(n: int) -> Seq<char> {
    if n < 0 {
        "-"@ + decimal((-n) as nat)
    } else {
        decimal(n as nat)
    }
}

fn digit_str(d: u64) -> (r: &'static str)
    requires
        d < 10,
    ensures
        r@ == seq![digit_char(d as nat)],
{
    proof {
        reveal_strlit("0");
        reveal_strlit("1");
        reveal_strlit("2");
        reveal_strlit("3");
        reveal_strlit("4");
        reveal_strlit("5");
        reveal_strlit("6");
        reveal_strlit("7");
        reveal_strlit("8");
        reveal_strlit("9");
    }
    if d == 0 { "0" } else if d == 1 { "1" } else if d == 2 { "2" } else if d == 3 { "3" } else if d == 4 {
        "4"
    } else if d == 5 { "5" } else if d == 6 { "6" } else if d == 7 { "7" } else if d == 8 { "8" } else { "9" }
}

/// Writes a natural number in decimal.
pub fn decimal_string(n: u64) -> (r: String)
    ensures
        r@ == decimal(n as nat),
    decreases n,
{
    if n < 10 {
        digit_str(n).to_owned()
    } else {
        let mut s = decimal_string(n / 10);
        s.append(digit_str(n % 10));
        s
    }
}

/// Writes an integer in decimal.
pub fn signed_decimal_string(n: i64) -> (r: String)
    ensures
        r@ == signed_decimal(n as int),
{
    if n < 0 {
        let below: i64 = -(n + 1);
        let magnitude: u64 = below as u64 + 1;
        let mut s = "-".to_owned();
        s.append(decimal_string(magnitude).as_str());
        s
    } else {
        decimal_string(n as u64)
    }
}

/// The human-readable text of an error.
pub open spec fn description(e: CrawlerError) -> Seq<char> {
    match e {
        CrawlerError::TwitterApi(m) => "Twitter API error: "@ + m@,
        CrawlerError::HttpStatus(s, e, b) => "Twitter API error at "@ + e@ + ": "@ + decimal(s as nat) + " "@ + b@,
        CrawlerError::RateLimitExceeded => "Rate limit exceeded"@,
        CrawlerError::Authentication(m) => "Authentication error: "@ + m@,
        CrawlerError::Database(m) => "Database error: "@ + m@,
        CrawlerError::LlmInference(m) => "LLM inference error: "@ + m@,
        CrawlerError::Config(m) => "Configuration error: "@ + m@,
        CrawlerError::Network(m) => "Network error: "@ + m@,
    }
}

impl CrawlerError {
    /// The human-readable text of the error.
    pub fn describe(&self) -> (r: String)
        ensures
            r@ == description(*self),
    {
        let (mut head, tail): (String, &String) = match self {
            CrawlerError::TwitterApi(m) => ("Twitter API error: ".to_owned(), m),
            CrawlerError::HttpStatus(s, e, b) => {
                let mut head = "Twitter API error at ".to_owned();
                head.append(e.as_str());
                head.append(": ");
                head.append(decimal_string(*s as u64).as_str());
                head.append(" ");
                (head, b)
            },
            CrawlerError::RateLimitExceeded => {
                return "Rate limit exceeded".to_owned();
            },
            CrawlerError::Authentication(m) => ("Authentication error: ".to_owned(), m),
            CrawlerError::Database(m) => ("Database error: ".to_owned(), m),
            CrawlerError::LlmInference(m) => ("LLM inference error: ".to_owned(), m),
            CrawlerError::Config(m) => ("Configuration error: ".to_owned(), m),
            CrawlerError::Network(m) => ("Network error: ".to_owned(), m),
        };
        head.append(tail.as_str());
        head
    }
}

} // verus!
