//! Bearer-token authentication of trigger requests.
use vstd::prelude::*;
use vstd::string::*;
use crate::text::{same_text, split_on, split_trimmed, trim};

verus! {

/// The identity of an authenticated caller.
#[derive(Clone, Copy, Debug, PartialEq, Eq, Structural)]
pub struct CurrentUser;

/// Why a request was refused.
#[derive(Clone, Copy, Debug, PartialEq, Eq, Structural)]
pub enum AuthError {
    MissingHeader,
    BadFormat,
    InvalidToken,
}

/// ASCII letters folded to lower case, as `eq_ignore_ascii_case` compares them.
pub open spec fn fold_ascii(c: char) -> u32 {
    if 'A' <= c && c <= 'Z' {
        (c as u32 + 32) as u32
    } else {
        c as u32
    }
}

pub open spec fn eq_ignore_ascii_case(a: Seq<char>, b: Seq<char>) -> bool {
    a.len() == b.len() && forall|i: int| 0 <= i < a.len() ==> fold_ascii(a[i]) == fold_ascii(b[i])
}

/// The index of the first space in `h`, if any.
pub open spec fn first_space(h: Seq<char>) -> Option<int> {
    if exists|i: int| 0 <= i < h.len() && h[i] == ' ' {
        Some(choose|i: int| 0 <= i < h.len() && h[i] == ' ' && forall|j: int| 0 <= j < i ==> h[j] != ' ')
    } else {
        None
    }
}

/// The token of an `Authorization: Bearer <token>` header value: the text
/// after the first space, where what precedes it is `Bearer` in any case and
/// the token is not empty.
pub open spec fn bearer_token(h: Seq<char>) -> Option<Seq<char>> {
    match first_space(h) {
        None => None,
        Some(i) => if eq_ignore_ascii_case(h.subrange(0, i), "Bearer"@) && i + 1 < h.len() {
            Some(h.subrange(i + 1, h.len() as int))
        } else {
            None
        },
    }
}

pub fn fold_char(c: char) -> (r: u32)
    ensures
        r == fold_ascii(c),
{
    if 'A' <= c && c <= 'Z' {
        c as u32 + 32
    } else {
        c as u32
    }
}

pub fn eq_ascii_case_insensitive(a: &str, b: &str) -> (r: bool)
    ensures
        r == eq_ignore_ascii_case(a@, b@),
{
    let n = a.unicode_len();
    if n != b.unicode_len() {
        return false;
    }
    let mut i: usize = 0;
    while i < n
        invariant
            n == a@.len(),
            n == b@.len(),
            i <= n,
            forall|j: int| 0 <= j < i ==> fold_ascii(a@[j]) == fold_ascii(b@[j]),
        decreases n - i,
    {
        if fold_char(a.get_char(i)) != fold_char(b.get_char(i)) {
            return false;
        }
        i += 1;
    }
    true
}

pub fn parse_bearer(header_value: &str) -> (r: Option<String>)
    ensures
        r is None ==> bearer_token(header_value@) is None,
        r matches Some(t) ==> bearer_token(header_value@) == Some(t@),
{
    let ghost h = header_value@;
    let n = header_value.unicode_len();
    let mut i: usize = 0;
    while i < n && header_value.get_char(i) != ' '
        invariant
            h == header_value@,
            n == h.len(),
            i <= n,
            forall|j: int| 0 <= j < i ==> h[j] != ' ',
        decreases n - i,
    {
        i += 1;
    }
    if i == n {
        assert(first_space(h) is None);
        return None;
    }
    assert(first_space(h) == Some(i as int)) by {
        let k = choose|k: int| 0 <= k < h.len() && h[k] == ' ' && forall|j: int| 0 <= j < k ==> h[j] != ' ';
        assert(0 <= i < h.len() && h[i as int] == ' ');
        if k < i {
        } else if k > i {
        }
    }
    let scheme = header_value.substring_char(0, i);
    if eq_ascii_case_insensitive(scheme, "Bearer") && i + 1 < n {
        Some(String::from_str(header_value.substring_char(i + 1, n)))
    } else {
        None
    }
}

pub open spec fn token_allowed(tokens: Seq<String>, token: Seq<char>) -> bool {
    exists|i: int| 0 <= i < tokens.len() && tokens[i]@ == token
}

/// The caller whose token is on the allow-list, if it is.
pub fn authorize_bearer(tokens: &Vec<String>, token: &str) -> (r: Option<CurrentUser>)
    ensures
        r is Some <==> token_allowed(tokens@, token@),
{
    let mut i: usize = 0;
    while i < tokens.len()
        invariant
            i <= tokens@.len(),
            forall|j: int| 0 <= j < i ==> tokens@[j]@ != token@,
        decreases tokens@.len() - i,
    {
        if same_text(tokens[i].as_str(), token) {
            return Some(CurrentUser);
        }
        i += 1;
    }
    None
}

/// The allow-list from its comma-separated form, each token trimmed.
pub fn parse_token_list(s: &str) -> (r: Vec<String>)
    ensures
        r@.len() == split_on(s@, ',').len(),
        forall|i: int| 0 <= i < r@.len() ==> #[trigger] r@[i]@ == trim(split_on(s@, ',')[i]),
{
    split_trimmed(s, ',')
}

/// The verdict on a request from its `Authorization` header, if it had one.
pub open spec fn auth_verdict(header: Option<Seq<char>>, tokens: Seq<String>) -> Result<
    CurrentUser,
    AuthError,
> {
    match header {
        None => Err(AuthError::MissingHeader),
        Some(h) => match bearer_token(h) {
            None => Err(AuthError::BadFormat),
            Some(t) => if token_allowed(tokens, t) {
                Ok(CurrentUser)
            } else {
                Err(AuthError::InvalidToken)
            },
        },
    }
}

pub fn authenticate(header: Option<&str>, tokens: &Vec<String>) -> (r: Result<CurrentUser, AuthError>)
    ensures
        r == auth_verdict(
            match header {
                Some(h) => Some(h@),
                None => None,
            },
            tokens@,
        ),
{
    match header {
        None => Err(AuthError::MissingHeader),
        Some(h) => match parse_bearer(h) {
            None => Err(AuthError::BadFormat),
            Some(t) => match authorize_bearer(tokens, t.as_str()) {
                Some(u) => Ok(u),
                None => Err(AuthError::InvalidToken),
            },
        },
    }
}

impl AuthError {
    pub fn message(&self) -> (r: &'static str)
        ensures
            r@ == match *self {
                AuthError::MissingHeader => "Unauthorized: Missing Authorization header"@,
                AuthError::BadFormat =>
                    "Unauthorized: Invalid Authorization header format. Expected 'Bearer <token>'"@,
                AuthError::InvalidToken => "Unauthorized: Invalid or missing bearer token"@,
            },
    {
        match *self {
            AuthError::MissingHeader => "Unauthorized: Missing Authorization header",
            AuthError::BadFormat =>
                "Unauthorized: Invalid Authorization header format. Expected 'Bearer <token>'",
            AuthError::InvalidToken => "Unauthorized: Invalid or missing bearer token",
        }
    }
}

} // verus!
