//! The access token: what is kept of a login, and what is taken from it later.
use crate::bambu::models::LoginResponse;
use crate::bambu::API_BASE;
use crate::text;
use crate::time;
use crate::time::{Instant, FIRST_SECOND, LAST_SECOND};
use vstd::prelude::*;

verus! {

/// What is read from a token file.
#[derive(Debug)]
pub struct TokenData {
    pub access_token: Option<String>,
    pub api_base: Option<String>,
}

impl Clone for TokenData {
    fn clone(&self) -> (r: Self)
        ensures
            r == *self,
    {
        TokenData { access_token: self.access_token.clone(), api_base: self.api_base.clone() }
    }
}

/// What is written to a token file. What is absent is left out, but for the refresh token.
#[derive(Debug)]
pub struct SavedToken {
    pub access_token: String,
    pub refresh_token: Option<String>,
    pub created_at: String,
    pub api_base: String,
    pub expires_in: Option<i64>,
    pub expires_at: Option<String>,
}

/// Whether `value` is there and is not empty.
pub open spec fn non_empty(value: Option<String>) -> bool {
    value matches Some(value) && value@.len() > 0
}

/// The value, where it is there and is not empty.
fn filled(value: &Option<String>) -> (r: Option<&String>)
    ensures
        match r {
            Some(own) => non_empty(*value) && *value == Some(*own),
            None => !non_empty(*value),
        },
{
    match value {
        Some(own) => if own.as_str().is_empty() {
            None
        } else {
            Some(own)
        },
        None => None,
    }
}

/// Whether the calendar has a place for the instant at which a token that was issued at `now`
/// expires.
pub open spec fn expiry_on_calendar(now: Instant, expires_in: Option<i64>) -> bool {
    expires_in matches Some(seconds) ==> FIRST_SECOND <= now.secs + seconds <= LAST_SECOND
}

/// Tells whether the calendar has a place for the instant at which a token expires.
pub fn is_expiry_on_calendar(now: Instant, expires_in: Option<i64>) -> (r: bool)
    ensures
        r == expiry_on_calendar(now, expires_in),
{
    match expires_in {
        Some(seconds) => {
            let at: i128 = now.secs as i128 + seconds as i128;
            FIRST_SECOND as i128 <= at && at <= LAST_SECOND as i128
        },
        None => true,
    }
}

/// Tells whether a login gave a token.
pub fn has_token(login_response: &LoginResponse) -> (r: bool)
    ensures
        r == non_empty(login_response.access_token),
{
    filled(&login_response.access_token).is_some()
}

/// What is said of a login that gave no token.
pub open spec fn no_token() -> Seq<char> {
    "cannot save token: login response did not include accessToken"@
}

/// What is kept of a login at `now`.
pub fn saved_token(login_response: &LoginResponse, api_base: &str, now: Instant) -> (r: Result<
    SavedToken,
    String,
>)
    requires
        now.regular(),
        non_empty(login_response.access_token) ==> expiry_on_calendar(
            now,
            login_response.expires_in,
        ),
    ensures
        match r {
            Ok(saved) => {
                &&& non_empty(login_response.access_token)
                &&& login_response.access_token == Some(saved.access_token)
                &&& saved.refresh_token == login_response.refresh_token
                &&& saved.created_at@ == time::rfc3339_text(now.secs, now.nanos)
                &&& saved.api_base@ == api_base@
                &&& saved.expires_in == login_response.expires_in
                &&& text::chars(saved.expires_at) == (match login_response.expires_in {
                    Some(seconds) => Some(
                        time::rfc3339_text((now.secs + seconds) as i64, now.nanos),
                    ),
                    None => None,
                })
            },
            Err(message) => !non_empty(login_response.access_token) && message@ == no_token(),
        },
{
    let access_token = match filled(&login_response.access_token) {
        Some(access_token) => access_token,
        None => return Err(
            "cannot save token: login response did not include accessToken".to_owned(),
        ),
    };
    let expires_at = match login_response.expires_in {
        Some(seconds) => Some(now.plus_seconds(seconds).to_rfc3339()),
        None => None,
    };
    Ok(
        SavedToken {
            access_token: access_token.clone(),
            refresh_token: login_response.refresh_token.clone(),
            created_at: now.to_rfc3339(),
            api_base: api_base.to_owned(),
            expires_in: login_response.expires_in,
            expires_at,
        },
    )
}

/// What is taken from a token file: the token, and where it is valid.
pub open spec fn session_of(token: TokenData) -> Option<(Seq<char>, Seq<char>)> {
    if non_empty(token.access_token) {
        Some(
            (
                token.access_token->0@,
                if non_empty(token.api_base) {
                    token.api_base->0@
                } else {
                    API_BASE@
                },
            ),
        )
    } else {
        None
    }
}

/// What is said of a token file without a token.
pub open spec fn no_cached_token() -> Seq<char> {
    "cached token file does not include accessToken"@
}

/// The token of a token file, and where it is valid.
pub fn session(token: &TokenData) -> (r: Result<(String, String), String>)
    ensures
        match r {
            Ok((access_token, api_base)) => session_of(*token) == Some((access_token@, api_base@)),
            Err(message) => session_of(*token) is None && message@ == no_cached_token(),
        },
{
    let access_token = match filled(&token.access_token) {
        Some(access_token) => access_token.clone(),
        None => return Err("cached token file does not include accessToken".to_owned()),
    };
    let api_base = match filled(&token.api_base) {
        Some(api_base) => api_base.clone(),
        None => API_BASE.to_owned(),
    };
    Ok((access_token, api_base))
}

/// What the next run reads from what was saved.
pub open spec fn reloaded(saved: SavedToken) -> TokenData {
    TokenData { access_token: Some(saved.access_token), api_base: Some(saved.api_base) }
}

/// A token that was saved is the token that is used, at the address that it was saved with, unless
/// that is empty.
pub proof fn law_saved_token_is_used(saved: SavedToken)
    requires
        saved.access_token@.len() > 0,
    ensures
        session_of(reloaded(saved)) == Some(
            (
                saved.access_token@,
                if saved.api_base@.len() > 0 {
                    saved.api_base@
                } else {
                    API_BASE@
                },
            ),
        ),
{
}

/// What the place of the token file is built upon.
#[derive(Debug, Clone, Copy, PartialEq, Eq, Structural)]
pub enum TokenBase {
    /// The file that was given.
    Given,
    /// The directory for state.
    StateHome,
    /// The home directory.
    Home,
    /// The current directory.
    Here,
}

/// The steps from the base to the token file.
pub open spec fn token_steps(base: TokenBase) -> Seq<Seq<char>> {
    match base {
        TokenBase::Given => Seq::empty(),
        TokenBase::StateHome => seq!["bambu-overlay"@, "token.json"@],
        _ => seq![".local"@, "state"@, "bambu-overlay"@, "token.json"@],
    }
}

/// What the place of the token file is built upon, and the steps from there, by whether a file was
/// given and which directories are known.
pub fn token_path(file: bool, state_home: bool, home: bool) -> (r: (TokenBase, Vec<&'static str>))
    ensures
        r.0 == (if file {
            TokenBase::Given
        } else if state_home {
            TokenBase::StateHome
        } else if home {
            TokenBase::Home
        } else {
            TokenBase::Here
        }),
        text::views(r.1@) == token_steps(r.0),
{
    let mut steps: Vec<&'static str> = Vec::new();
    let base = if file {
        TokenBase::Given
    } else if state_home {
        steps.push("bambu-overlay");
        steps.push("token.json");
        TokenBase::StateHome
    } else {
        steps.push(".local");
        steps.push("state");
        steps.push("bambu-overlay");
        steps.push("token.json");
        if home {
            TokenBase::Home
        } else {
            TokenBase::Here
        }
    };
    assert(text::views(steps@) =~= token_steps(base));
    (base, steps)
}

/// What is kept of a login is the token it gave and what belongs to that, each under its own name;
/// the token expires as many seconds after it was kept as the login said. Nothing is kept of a login
/// that gave no token.
pub proof fn law_login_is_kept(
    login_response: &LoginResponse,
    api_base: &str,
    now: Instant,
    r: Result<SavedToken, String>,
)
    requires
        call_ensures(saved_token, (login_response, api_base, now), r),
    ensures
        r is Ok <==> login_response.access_token is Some && login_response.access_token->0@.len()
            > 0,
        r matches Ok(saved) ==> {
            &&& saved.access_token@ == login_response.access_token->0@
            &&& saved.refresh_token is Some <==> login_response.refresh_token is Some
            &&& saved.refresh_token is Some ==> saved.refresh_token->0@
                == login_response.refresh_token->0@
            &&& saved.api_base@ == api_base@
            &&& saved.expires_in == login_response.expires_in
            &&& saved.created_at@ == time::rfc3339_text(now.secs, now.nanos)
            &&& saved.expires_at is Some <==> login_response.expires_in is Some
            &&& forall|at: i64|
                login_response.expires_in is Some && at - now.secs
                    == login_response.expires_in->0 ==> saved.expires_at->0@
                    == #[trigger] time::rfc3339_text(at, now.nanos)
        },
{
}

/// What is used of a token file is its token and its address; without an address, that of the
/// service, and without a token, nothing.
pub proof fn law_token_file_is_used(token: &TokenData, r: Result<(String, String), String>)
    requires
        call_ensures(session, (token,), r),
    ensures
        r is Ok <==> token.access_token is Some && token.access_token->0@.len() > 0,
        r matches Ok((access_token, api_base)) ==> {
            &&& access_token@ == token.access_token->0@
            &&& token.api_base is Some && token.api_base->0@.len() > 0 ==> api_base@
                == token.api_base->0@
            &&& token.api_base is None || token.api_base->0@.len() == 0 ==> api_base@
                == "https://api.bambulab.com"@
        },
{
}

/// The token file is the one that was given; else `bambu-overlay/token.json` in the directory for
/// state; else in `.local/state` of the home directory, or of the current one.
pub proof fn law_token_file_is_found(
    file: bool,
    state_home: bool,
    home: bool,
    r: (TokenBase, Vec<&'static str>),
)
    requires
        call_ensures(token_path, (file, state_home, home), r),
    ensures
        file ==> r.0 == TokenBase::Given && r.1@.len() == 0,
        !file && state_home ==> {
            &&& r.0 == TokenBase::StateHome
            &&& r.1@.len() == 2
            &&& r.1@[0]@ == "bambu-overlay"@
            &&& r.1@[1]@ == "token.json"@
        },
        !file && !state_home ==> {
            &&& r.0 == (if home {
                TokenBase::Home
            } else {
                TokenBase::Here
            })
            &&& r.1@.len() == 4
            &&& r.1@[0]@ == ".local"@
            &&& r.1@[1]@ == "state"@
            &&& r.1@[2]@ == "bambu-overlay"@
            &&& r.1@[3]@ == "token.json"@
        },
{
    let steps = text::views(r.1@);
    assert(steps.len() == r.1@.len());
    assert(forall|i: int| 0 <= i < r.1@.len() ==> #[trigger] r.1@[i]@ == steps[i]);
}

} // verus!
