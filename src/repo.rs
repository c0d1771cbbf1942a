//! Credentials for fetching a project's source.
use vstd::prelude::*;
use vstd::string::*;
use crate::text::{trim, trim_str};

verus! {

/// The user name sent with an access token where the URL names none.
pub open spec fn placeholder_user() -> Seq<char> {
    "x-access-token"@
}

/// The access token to fetch with: the configured value trimmed, and none
/// where that leaves nothing.
pub open spec fn token_of(raw: Option<Seq<char>>) -> Option<Seq<char>> {
    match raw {
        None => None,
        Some(s) => if trim(s).len() == 0 {
            None
        } else {
            Some(trim(s))
        },
    }
}

pub fn access_token(raw: Option<&str>) -> (r: Option<String>)
    ensures
        r is None <==> token_of(
            match raw {
                Some(s) => Some(s@),
                None => None,
            },
        ) is None,
        r matches Some(t) ==> token_of(
            match raw {
                Some(s) => Some(s@),
                None => None,
            },
        ) == Some(t@),
{
    match raw {
        None => None,
        Some(s) => {
            let t = trim_str(s);
            if t.as_str().unicode_len() == 0 {
                None
            } else {
                Some(t)
            }
        },
    }
}

/// The user name and password to answer a credential request with: the
/// token under the URL's user name, or under the placeholder; none without a
/// token, so that the fetch goes unauthenticated.
pub fn credentials_for(token: Option<&str>, username_from_url: Option<&str>) -> (r: Option<
    (String, String),
>)
    ensures
        r is Some <==> token is Some,
        r matches Some(c) ==> c.1@ == token->Some_0@ && c.0@ == match username_from_url {
            Some(u) => u@,
            None => placeholder_user(),
        },
{
    match token {
        None => None,
        Some(t) => {
            let user = match username_from_url {
                Some(u) => String::from_str(u),
                None => String::from_str("x-access-token"),
            };
            Some((user, String::from_str(t)))
        },
    }
}

} // verus!
