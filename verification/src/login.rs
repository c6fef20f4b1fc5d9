//! The magic-link sign-in flow's own text: reading the address and the
//! token out of a query string, and the links and messages it sends.
use vstd::prelude::*;

use crate::text::{has_prefix, strip_prefix};

verus! {

/// The address a sign-in link is requested for when the query names none.
pub const DEFAULT_EMAIL: &'static str = "captain@example.com";

/// The value of a query of the form `name=value` whose prefix is `key`, or
/// `default` when there is no query or it does not start with `key`.
pub open spec fn query_value(query: Option<Seq<char>>, key: Seq<char>, default: Seq<char>) -> Seq<
    char,
> {
    match query {
        Some(q) => if has_prefix(q, key) {
            q.subrange(key.len() as int, q.len() as int)
        } else {
            default
        },
        None => default,
    }
}

/// The view of an optional string.
pub open spec fn opt_view(s: Option<&str>) -> Option<Seq<char>> {
    match s {
        Some(q) => Some(q@),
        None => None,
    }
}

/// The address a visitor asks a sign-in link for: what follows `email=` in
/// the query, or [`DEFAULT_EMAIL`].
pub fn email_from_query<'a>(query: Option<&'a str>) -> (email: &'a str)
    ensures
        email@ == query_value(opt_view(query), "email="@, DEFAULT_EMAIL@),
{
    match query {
        Some(q) => match strip_prefix(q, "email=") {
            Some(rest) => rest,
            None => DEFAULT_EMAIL,
        },
        None => DEFAULT_EMAIL,
    }
}

/// The token a sign-in link carries: what follows `token=` in the query, or
/// the empty token.
pub fn token_from_query<'a>(query: Option<&'a str>) -> (token: &'a str)
    ensures
        token@ == query_value(opt_view(query), "token="@, ""@),
{
    match query {
        Some(q) => match strip_prefix(q, "token=") {
            Some(rest) => rest,
            None => "",
        },
        None => "",
    }
}

/// The path that redeems the magic link `token`.
pub fn magic_link_path(token: &str) -> (path: String)
    ensures
        path@ == "/login/verify?token="@ + token@,
{
    let mut path = String::from_str("/login/verify?token=");
    path.append(token);
    path
}

/// The path that asks for a magic link for `email`.
pub fn login_request_path(email: &str) -> (path: String)
    ensures
        path@ == "/login/request?email="@ + email@,
{
    let mut path = String::from_str("/login/request?email=");
    path.append(email);
    path
}

/// The reply to a request for a magic link, naming the link.
pub fn magic_link_sent(link: &str) -> (message: String)
    ensures
        message@ == "Magic link sent. Open "@ + link@,
{
    let mut message = String::from_str("Magic link sent. Open ");
    message.append(link);
    message
}

} // verus!
