//! What a request to the API is made of, and what its answer means.
//!
//! Every resource path is built here, each interpolated login or name going through
//! [`segment`], so no free text can address a different resource. Sending is the caller's
//! work; what the status and body of an answer amount to is decided here.
use vstd::prelude::*;

use crate::date::{date_text, BudgetFilter, DateRange};
use crate::error::{fallback_message, status_kind, ClientError, ErrorKind, ErrorResponse};
use crate::response::{decode, decoded, FromJson};
use crate::text::{concat, render_i128, signed_decimal};
use crate::url::{segment, segment_outcome};

verus! {

/// `s` without its trailing `/` characters.
pub open spec fn without_trailing_slashes(s: Seq<char>) -> Seq<char>
    decreases s.len(),
{
    if s.len() > 0 && s.last() == '/' {
        without_trailing_slashes(s.drop_last())
    } else {
        s
    }
}

/// The base URL requests are made against: trailing slashes would double up against the
/// leading slash of every path, so they are dropped.
pub fn base_url(raw: &str) -> (r: String)
    ensures
        r@ == without_trailing_slashes(raw@),
{
    let chars = crate::text::chars_of(raw);
    let mut end = chars.len();
    assert(chars@.take(end as int) =~= raw@);
    while end > 0 && chars[end - 1] == '/'
        invariant
            end <= chars@.len(),
            chars@ == raw@,
            without_trailing_slashes(chars@.take(end as int)) == without_trailing_slashes(raw@),
        decreases end,
    {
        assert(chars@.take(end - 1) =~= chars@.take(end as int).drop_last());
        end = end - 1;
    }
    assert(chars@.subrange(0, end as int) =~= chars@.take(end as int));
    crate::text::string_of(&chars, 0, end)
}

/// The URL of `path` on the API at `base`.
pub fn url(base: &str, path: &str) -> (r: String)
    ensures
        r@ == base@ + path@,
{
    concat(base, path)
}

/// How a flag reads in a path.
pub open spec fn flag_text(b: bool) -> Seq<char> {
    if b {
        "true"@
    } else {
        "false"@
    }
}

/// `prefix + segment(value) + suffix`, or the refusal of `value`.
pub open spec fn around_segment(prefix: Seq<char>, value: &str, suffix: Seq<char>) -> Result<
    Seq<char>,
    (ErrorKind, Seq<char>),
> {
    match segment_outcome(value) {
        Ok(s) => Ok(prefix + s + suffix),
        Err(e) => Err(e),
    }
}

/// Whether `r` is the path `expected` describes, or the same refusal.
pub open spec fn path_is(r: Result<String, ClientError>, expected: Result<Seq<char>, (ErrorKind, Seq<char>)>) -> bool {
    match expected {
        Ok(p) => r matches Ok(x) && x@ == p,
        Err(e) => r matches Err(x) && x@ == e,
    }
}

fn around(prefix: &str, value: &str, suffix: &str) -> (r: Result<String, ClientError>)
    ensures
        path_is(r, around_segment(prefix@, value, suffix@)),
{
    let encoded = segment(value)?;
    let head = concat(prefix, encoded.as_str());
    Ok(concat(head.as_str(), suffix))
}

/// The account `login`: `/resources/users/{login}`.
pub fn users_path(login: &str) -> (r: Result<String, ClientError>)
    ensures
        path_is(r, around_segment("/resources/users/"@, login, ""@)),
{
    around("/resources/users/", login, "")
}

/// The category `(name, profit)`: `/resources/categories/{name}/{profit}`.
pub fn category_path(name: &str, profit: bool) -> (r: Result<String, ClientError>)
    ensures
        path_is(r, around_segment("/resources/categories/"@, name, "/"@ + flag_text(profit))),
{
    let suffix = if profit {
        "/true"
    } else {
        "/false"
    };
    proof {
        reveal_strlit("/true");
        reveal_strlit("/false");
        reveal_strlit("/");
        reveal_strlit("true");
        reveal_strlit("false");
        assert("/true"@ =~= "/"@ + "true"@);
        assert("/false"@ =~= "/"@ + "false"@);
    }
    around("/resources/categories/", name, suffix)
}

/// The wallets of `login`: `/resources/users/{login}/wallets`.
pub fn wallets_root(login: &str) -> (r: Result<String, ClientError>)
    ensures
        path_is(r, around_segment("/resources/users/"@, login, "/wallets"@)),
{
    around("/resources/users/", login, "/wallets")
}

/// Appends `tail` to a path, keeping a refusal.
fn extend(path: Result<String, ClientError>, tail: &str) -> (r: Result<String, ClientError>)
    ensures
        match path {
            Ok(p) => r matches Ok(x) && x@ == p@ + tail@,
            Err(e) => r == Err::<String, ClientError>(e),
        },
{
    let p = path?;
    Ok(concat(p.as_str(), tail))
}

/// `/` and the decimal number `n`.
fn slash_number(n: i32) -> (r: String)
    ensures
        r@ == "/"@ + signed_decimal(n as int),
{
    let digits = render_i128(n as i128);
    concat("/", digits.as_str())
}

/// The wallet `wallet_id` of `login`: `/resources/users/{login}/wallets/{wallet_id}`.
pub fn wallets_path(login: &str, wallet_id: i32) -> (r: Result<String, ClientError>)
    ensures
        path_is(
            r,
            around_segment(
                "/resources/users/"@,
                login,
                "/wallets"@ + "/"@ + signed_decimal(wallet_id as int),
            ),
        ),
{
    let tail = slash_number(wallet_id);
    let r = extend(wallets_root(login), tail.as_str());
    proof {
        if let Ok(s) = segment_outcome(login) {
            assert("/resources/users/"@ + s + "/wallets"@ + tail@ =~= "/resources/users/"@ + s + (
            "/wallets"@ + "/"@ + signed_decimal(wallet_id as int)));
        }
    }
    r
}

/// A report or a collection under the wallet `wallet_id` of `login`:
/// `/resources/users/{login}/wallets/{wallet_id}/{what}`.
pub fn wallet_part_path(login: &str, wallet_id: i32, what: &str) -> (r: Result<String, ClientError>)
    ensures
        path_is(
            r,
            around_segment(
                "/resources/users/"@,
                login,
                "/wallets"@ + "/"@ + signed_decimal(wallet_id as int) + "/"@ + what@,
            ),
        ),
{
    let tail = concat("/", what);
    let r = extend(wallets_path(login, wallet_id), tail.as_str());
    proof {
        if let Ok(s) = segment_outcome(login) {
            assert("/resources/users/"@ + s + ("/wallets"@ + "/"@ + signed_decimal(wallet_id as int))
                + tail@ =~= "/resources/users/"@ + s + ("/wallets"@ + "/"@ + signed_decimal(
                wallet_id as int,
            ) + "/"@ + what@));
        }
    }
    r
}

/// The expense `expense_id` in the wallet `wallet_id` of `login`:
/// `/resources/users/{login}/wallets/{wallet_id}/expenses/{expense_id}`.
pub fn expense_path(login: &str, wallet_id: i32, expense_id: i32) -> (r: Result<
    String,
    ClientError,
>)
    ensures
        path_is(
            r,
            around_segment(
                "/resources/users/"@,
                login,
                "/wallets"@ + "/"@ + signed_decimal(wallet_id as int) + "/"@ + "expenses"@ + "/"@
                    + signed_decimal(expense_id as int),
            ),
        ),
{
    let tail = slash_number(expense_id);
    let r = extend(wallet_part_path(login, wallet_id, "expenses"), tail.as_str());
    proof {
        if let Ok(s) = segment_outcome(login) {
            assert("/resources/users/"@ + s + ("/wallets"@ + "/"@ + signed_decimal(wallet_id as int)
                + "/"@ + "expenses"@) + tail@ =~= "/resources/users/"@ + s + ("/wallets"@ + "/"@
                + signed_decimal(wallet_id as int) + "/"@ + "expenses"@ + "/"@ + signed_decimal(
                expense_id as int,
            )));
        }
    }
    r
}

/// The budgets of `login`: `/resources/users/{login}/budgets`.
pub fn budgets_root(login: &str) -> (r: Result<String, ClientError>)
    ensures
        path_is(r, around_segment("/resources/users/"@, login, "/budgets"@)),
{
    around("/resources/users/", login, "/budgets")
}

/// The budget `budget_id` of `login`: `/resources/users/{login}/budgets/{budget_id}`.
pub fn budget_path(login: &str, budget_id: i32) -> (r: Result<String, ClientError>)
    ensures
        path_is(
            r,
            around_segment(
                "/resources/users/"@,
                login,
                "/budgets"@ + "/"@ + signed_decimal(budget_id as int),
            ),
        ),
{
    let tail = slash_number(budget_id);
    let r = extend(budgets_root(login), tail.as_str());
    proof {
        if let Ok(s) = segment_outcome(login) {
            assert("/resources/users/"@ + s + "/budgets"@ + tail@ =~= "/resources/users/"@ + s + (
            "/budgets"@ + "/"@ + signed_decimal(budget_id as int)));
        }
    }
    r
}

/// The query of a date-ranged report. Both bounds are always sent, so "no filter" and "the
/// full range" are the same request.
pub fn range_query(range: &DateRange) -> (r: [(&'static str, String); 2])
    ensures
        r@[0].0@ == "start"@ && r@[0].1@ == date_text(range.start.days),
        r@[1].0@ == "end"@ && r@[1].1@ == date_text(range.end.days),
{
    [("start", range.start.iso()), ("end", range.end.iso())]
}

/// The query of a budget listing: two windows, `start_*` bounding where a budget begins and
/// `end_*` where it ends.
pub fn filter_query(filter: &BudgetFilter) -> (r: [(&'static str, String); 4])
    ensures
        r@[0].0@ == "start_min"@ && r@[0].1@ == date_text(filter.start.start.days),
        r@[1].0@ == "start_max"@ && r@[1].1@ == date_text(filter.start.end.days),
        r@[2].0@ == "end_min"@ && r@[2].1@ == date_text(filter.end.start.days),
        r@[3].0@ == "end_max"@ && r@[3].1@ == date_text(filter.end.end.days),
{
    [
        ("start_min", filter.start.start.iso()),
        ("start_max", filter.start.end.iso()),
        ("end_min", filter.end.start.iso()),
        ("end_max", filter.end.end.iso()),
    ]
}

/// The token a protected call carries. Without one the call is refused before it leaves
/// the client: the server would answer 401, and that would announce an expiry to someone
/// who was never signed in.
pub fn bearer_token(token: Option<String>) -> (r: Result<String, ClientError>)
    ensures
        match token {
            Some(t) => r == Ok::<String, ClientError>(t),
            None => r matches Err(e) && e@ == (ErrorKind::Unauthenticated, "You are not signed in"@),
        },
{
    match token {
        Some(t) => Ok(t),
        None => Err(ClientError::Unauthenticated("You are not signed in".to_owned())),
    }
}

/// A request that never produced a response. The detail stays in the log; the person is
/// told something they can act on.
pub fn network_failure() -> (r: ClientError)
    ensures
        r@ == (ErrorKind::Network, "Could not reach the server"@),
{
    ClientError::Network("Could not reach the server".to_owned())
}

/// Whether an answer with `status` succeeded: any 2xx.
pub fn is_success(status: u16) -> (r: bool)
    ensures
        r == (200 <= status < 300),
{
    200 <= status && status < 300
}

/// The failure an answer with a non-2xx `status` amounts to, and whether it ends the
/// session.
///
/// The status alone names the category; `error_body`, the body read as the server's error
/// shape where it was one, supplies the message. Only a 401 to a request that carried a
/// token ends the session: a 401 to the login route means a wrong password.
pub fn failed_response(status: u16, token_was_sent: bool, error_body: Option<ErrorResponse>) -> (r: (
    ClientError,
    bool,
))
    ensures
        r.0@ == (
            status_kind(status),
            match error_body {
                Some(b) => b.message@,
                None => fallback_message(status),
            },
        ),
        r.1 == (status == 401 && token_was_sent),
{
    let expired = crate::error::is_session_expiry(status, token_was_sent);
    (ClientError::from_status(status, error_body), expired)
}

/// What an answer with `status` and `body` amounts to, and whether it ends the session:
/// a 2xx body decoded as a `T`, or the failure its status names.
pub fn read_response<T: FromJson>(
    status: u16,
    body: &str,
    token_was_sent: bool,
    error_body: Option<ErrorResponse>,
) -> (r: (Result<T, ClientError>, bool))
    ensures
        200 <= status < 300 ==> decoded(body@, r.0) && !r.1,
        !(200 <= status < 300) ==> {
            &&& r.0 matches Err(e) && e@ == (
                status_kind(status),
                match error_body {
                    Some(b) => b.message@,
                    None => fallback_message(status),
                },
            )
            &&& r.1 == (status == 401 && token_was_sent)
        },
{
    if is_success(status) {
        return (decode(body), false);
    }
    let (failure, expired) = failed_response(status, token_was_sent, error_body);
    (Err(failure), expired)
}

} // verus!
