//! Decisions of the management API: who may call it, and how its
//! statistics queries are read.

use vstd::prelude::*;
use vstd::string::*;
use crate::text::{
    decimal, is_whitespace, lemma_parse_decimal, parse_u64, parse_u64_spec, starts_with, str_eq,
    trim, trim_end_spec, trim_spec, trim_start_spec, u64_to_decimal,
};

verus! {

/// A caller that presented the configured API token.
pub struct Token(String);

/// Why a request was refused.
#[derive(Debug, PartialEq, Eq, Structural)]
pub enum ApiTokenError {
    /// The request had no `Authorization` header.
    Missing,
    /// The header was not `Bearer <token>` with the configured token.
    Invalid,
}

/// The outcome for a request whose first `Authorization` header is
/// `header` (if it had one), where `expected` is the configured token: the
/// header must start with `Bearer`, and what follows it, without
/// surrounding white space, must be the configured token.
pub open spec fn authorization(header: Option<Seq<char>>, expected: Seq<char>) -> Result<
    Seq<char>,
    ApiTokenError,
> {
    match header {
        None => Err(ApiTokenError::Missing),
        Some(h) => if "Bearer"@.is_prefix_of(h) {
            let token = trim_spec(h.skip(6));
            if token == expected {
                Ok(token)
            } else {
                Err(ApiTokenError::Invalid)
            }
        } else {
            Err(ApiTokenError::Invalid)
        },
    }
}

impl Token {
    /// The token the caller presented.
    pub closed spec fn value(self) -> Seq<char> {
        self.0@
    }

    /// The token the caller presented.
    pub fn as_str(&self) -> (s: &str)
        ensures
            s@ == self.value(),
    {
        self.0.as_str()
    }

    /// Checks a request's `Authorization` header against the configured
    /// token `expected`, as the API's request guard does.
    pub fn from_header(header: Option<&str>, expected: &str) -> (r: Result<Token, ApiTokenError>)
        ensures
            match r {
                Ok(t) => authorization(
                    match header {
                        Some(h) => Some(h@),
                        None => None,
                    },
                    expected@,
                ) == Ok::<Seq<char>, ApiTokenError>(t.value()),
                Err(e) => authorization(
                    match header {
                        Some(h) => Some(h@),
                        None => None,
                    },
                    expected@,
                ) == Err::<Seq<char>, ApiTokenError>(e),
            },
    {
        match header {
            Some(auth) => {
                proof { reveal_strlit("Bearer"); }
                if starts_with(auth, "Bearer") {
                    let n = auth.unicode_len();
                    let rest = auth.substring_char(6, n);
                    assert(rest@ =~= auth@.skip(6));
                    let token = trim(rest);
                    if str_eq(token.as_str(), expected) {
                        Ok(Token(token))
                    } else {
                        Err(ApiTokenError::Invalid)
                    }
                } else {
                    Err(ApiTokenError::Invalid)
                }
            },
            None => Err(ApiTokenError::Missing),
        }
    }
}

/// A token without white space at either end.
pub open spec fn no_outer_whitespace(t: Seq<char>) -> bool {
    t.len() > 0 ==> !is_whitespace(t[0]) && !is_whitespace(t.last())
}

/// A request that presents the configured token as `Bearer <token>` is let
/// in, whatever the token is, as long as it has no white space at its ends.
pub proof fn lemma_bearer_token_accepted(token: Seq<char>)
    requires
        no_outer_whitespace(token),
    ensures
        authorization(Some("Bearer "@ + token), token) == Ok::<Seq<char>, ApiTokenError>(token),
{
    reveal_strlit("Bearer ");
    reveal_strlit("Bearer");
    let h = "Bearer "@ + token;
    assert("Bearer"@ =~= h.subrange(0, 6));
    let rest = h.skip(6);
    assert(rest =~= seq![' '] + token);
    assert(rest.drop_first() =~= token);
    assert(trim_start_spec(rest) == trim_start_spec(token));
    assert(trim_start_spec(token) == token);
    assert(trim_end_spec(token) == token);
}

/// The status page's text.
pub fn index() -> (s: String)
    ensures
        s@ == "VPN backend is running"@,
{
    String::from_str("VPN backend is running")
}

/// The length in seconds of a statistics step: `minute`, `hour`, `day` or
/// `week`; any other name counts as a minute.
pub open spec fn step_seconds_spec(step: Seq<char>) -> u64 {
    if step == "minute"@ {
        60
    } else if step == "hour"@ {
        3600
    } else if step == "day"@ {
        86400
    } else if step == "week"@ {
        604800
    } else {
        60
    }
}

/// The length in seconds of a statistics step named `step`.
pub fn step_seconds(step: &str) -> (s: u64)
    ensures
        s == step_seconds_spec(step@),
{
    if str_eq(step, "minute") {
        60
    } else if str_eq(step, "hour") {
        3600
    } else if str_eq(step, "day") {
        86400
    } else if str_eq(step, "week") {
        604800
    } else {
        60
    }
}

/// How far back a `last` query reaches: `hour`, `day` or `week`; any other
/// name reaches back nothing.
pub open spec fn period_length(last: Seq<char>) -> u64 {
    if last == "hour"@ {
        3600
    } else if last == "day"@ {
        86400
    } else if last == "week"@ {
        604800
    } else {
        0
    }
}

/// The start of the period named `last` that ends at `now` (in seconds
/// since the Unix epoch).
pub fn period_start(last: &str, now: u64) -> (start: u64)
    requires
        period_length(last@) <= now,
    ensures
        start == now - period_length(last@),
{
    if str_eq(last, "hour") {
        now - 3600
    } else if str_eq(last, "day") {
        now - 86400
    } else if str_eq(last, "week") {
        now - 604800
    } else {
        now
    }
}

/// The statistics query a request for the last `last` (at time `now`)
/// stands for: the start and the end of the period, written in decimal.
pub fn get_stats_last(last: &str, now: u64) -> (q: (String, String))
    requires
        period_length(last@) <= now,
    ensures
        q.0@ == decimal((now - period_length(last@)) as nat),
        q.1@ == decimal(now as nat),
{
    (u64_to_decimal(period_start(last, now)), u64_to_decimal(now))
}

/// The numbers of a statistics query: the start and end of the period and
/// the length of a step; `None` where the start or the end is not an
/// unsigned decimal number (where reading them fails).
pub open spec fn stats_query(step: Seq<char>, from: Seq<char>, to: Seq<char>) -> Option<(u64, u64, u64)> {
    match (parse_u64_spec(from), parse_u64_spec(to)) {
        (Some(a), Some(b)) => Some((a, b, step_seconds_spec(step))),
        _ => None,
    }
}

/// Reads a statistics query: its start and end, and its step's length.
pub fn get_stats_period(step: &str, from: &str, to: &str) -> (q: Option<(u64, u64, u64)>)
    ensures
        q == stats_query(step@, from@, to@),
{
    match (parse_u64(from), parse_u64(to)) {
        (Some(a), Some(b)) => Some((a, b, step_seconds(step))),
        _ => None,
    }
}

/// A request for the last hour, day or week reads back as the period that
/// ends now and reaches back that long.
pub proof fn lemma_last_query_reads_back(step: Seq<char>, last: Seq<char>, now: u64)
    requires
        period_length(last) <= now,
    ensures
        stats_query(step, decimal((now - period_length(last)) as nat), decimal(now as nat)) == Some(
            ((now - period_length(last)) as u64, now, step_seconds_spec(step)),
        ),
{
    lemma_parse_decimal((now - period_length(last)) as u64);
    lemma_parse_decimal(now);
}

} // verus!
