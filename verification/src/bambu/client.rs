//! The requests that are made of Bambu Cloud, and what their answers come to.
use crate::bambu::error;
use crate::bambu::error::ApiStatus;
use crate::text;
use vstd::prelude::*;

verus! {

/// How much of an unreadable answer is shown, in bytes.
pub const PREVIEW_SIZE: usize = 500;

/// The method of a request.
#[derive(Debug, Clone, Copy, PartialEq, Eq, Structural)]
pub enum HttpMethod {
    Get,
    Post,
}

/// A request, but for its body.
#[derive(Debug)]
pub struct ApiRequest {
    pub method: HttpMethod,
    pub url: String,
    pub access_token: Option<String>,
    pub query: Vec<(String, String)>,
}

/// The view of a request.
pub struct RequestView {
    pub method: HttpMethod,
    pub url: Seq<char>,
    pub access_token: Option<Seq<char>>,
    pub query: Seq<(Seq<char>, Seq<char>)>,
}

/// The views of the parameters of a query, in order.
pub open spec fn query_view(query: Seq<(String, String)>) -> Seq<(Seq<char>, Seq<char>)> {
    Seq::new(query.len(), |i: int| (query[i].0@, query[i].1@))
}

impl View for ApiRequest {
    type V = RequestView;

    open spec fn view(&self) -> RequestView {
        RequestView {
            method: self.method,
            url: self.url@,
            access_token: text::chars(self.access_token),
            query: query_view(self.query@),
        }
    }
}

/// What a login sends.
#[derive(Debug)]
pub struct LoginRequest {
    pub account: String,
    pub password: Option<String>,
    pub code: Option<String>,
}

/// The address of `path` under `api_base`, with one slash between them.
pub open spec fn url_of(api_base: Seq<char>, path: Seq<char>) -> Seq<char> {
    text::without_trailing(api_base, '/') + "/"@ + text::without_leading(path, '/')
}

/// The address of `path` under `api_base`.
pub fn url(api_base: &str, path: &str) -> (r: String)
    ensures
        r@ == url_of(api_base@, path@),
{
    text::trim_end_matches(api_base, '/').to_owned().concat("/").concat(
        text::trim_start_matches(path, '/'),
    )
}

/// Slashes at the end of the base or at the beginning of the path make no difference.
pub proof fn law_url_has_one_slash(api_base: Seq<char>, path: Seq<char>)
    ensures
        url_of(api_base.push('/'), path) == url_of(api_base, path),
        url_of(api_base, seq!['/'] + path) == url_of(api_base, path),
{
    assert(api_base.push('/').drop_last() =~= api_base);
    assert((seq!['/'] + path).drop_first() =~= path);
}

/// The address at which the current prints are found.
pub const PRINT_PATH: &'static str = "/v1/iot-service/api/user/print";

/// The address at which the bound devices are found.
pub const BIND_PATH: &'static str = "/v1/iot-service/api/user/bind";

/// The address at which the task history is found.
pub const TASKS_PATH: &'static str = "/v1/user-service/my/tasks";

/// The address at which the preferences of the user are found.
pub const PREFERENCE_PATH: &'static str = "/v1/design-user-service/my/preference";

/// The address at which a user logs in.
pub const LOGIN_PATH: &'static str = "/v1/user-service/user/login";

/// A request for what is found at `path`. The current prints are asked to be up to date.
pub open spec fn json_request(api_base: Seq<char>, path: Seq<char>, token: Option<Seq<char>>) -> RequestView {
    RequestView {
        method: HttpMethod::Get,
        url: url_of(api_base, path),
        access_token: token,
        query: if path == PRINT_PATH@ {
            seq![("force"@, "true"@)]
        } else {
            Seq::empty()
        },
    }
}

/// A copy of a token, where there is one.
fn copy_token(token: Option<&str>) -> (r: Option<String>)
    ensures
        text::chars(r) == token_view(token),
{
    match token {
        Some(token) => Some(token.to_owned()),
        None => None,
    }
}

/// The view of a token, where there is one.
pub open spec fn token_view(token: Option<&str>) -> Option<Seq<char>> {
    match token {
        Some(token) => Some(token@),
        None => None,
    }
}

/// A request for what is found at `path`.
pub fn request_json(api_base: &str, path: &str, access_token: Option<&str>) -> (r: ApiRequest)
    ensures
        r@ == json_request(api_base@, path@, token_view(access_token)),
{
    let mut query: Vec<(String, String)> = Vec::new();
    if text::same(path, PRINT_PATH) {
        query.push(("force".to_owned(), "true".to_owned()));
        assert(query_view(query@) =~= seq![("force"@, "true"@)]);
    } else {
        assert(query_view(query@) =~= Seq::<(Seq<char>, Seq<char>)>::empty());
    }
    ApiRequest {
        method: HttpMethod::Get,
        url: url(api_base, path),
        access_token: copy_token(access_token),
        query,
    }
}

/// The request for the current prints.
pub fn current_print(api_base: &str, access_token: &str) -> (r: ApiRequest)
    ensures
        r@ == json_request(api_base@, PRINT_PATH@, Some(access_token@)),
{
    request_json(api_base, PRINT_PATH, Some(access_token))
}

/// The request for the bound devices.
pub fn bound_devices(api_base: &str, access_token: &str) -> (r: ApiRequest)
    ensures
        r@ == json_request(api_base@, BIND_PATH@, Some(access_token@)),
{
    request_json(api_base, BIND_PATH, Some(access_token))
}

/// The request for the preferences of the user.
pub fn user_preference(api_base: &str, access_token: &str) -> (r: ApiRequest)
    ensures
        r@ == json_request(api_base@, PREFERENCE_PATH@, Some(access_token@)),
{
    request_json(api_base, PREFERENCE_PATH, Some(access_token))
}

/// The request for the latest tasks, of one device where it is given.
pub open spec fn tasks_request(
    api_base: Seq<char>,
    token: Seq<char>,
    limit: nat,
    device_id: Option<Seq<char>>,
) -> RequestView {
    RequestView {
        method: HttpMethod::Get,
        url: url_of(api_base, TASKS_PATH@),
        access_token: Some(token),
        query: match device_id {
            Some(device_id) => seq![
                ("limit"@, text::decimal(limit)),
                ("deviceId"@, device_id),
            ],
            None => seq![("limit"@, text::decimal(limit))],
        },
    }
}

/// The request for the latest tasks.
pub fn tasks(api_base: &str, access_token: &str, limit: usize, device_id: Option<&str>) -> (r:
    ApiRequest)
    ensures
        r@ == tasks_request(api_base@, access_token@, limit as nat, token_view(device_id)),
{
    let mut query: Vec<(String, String)> = Vec::new();
    query.push(("limit".to_owned(), text::decimal_text(limit as u128)));
    if let Some(device_id) = device_id {
        query.push(("deviceId".to_owned(), device_id.to_owned()));
    }
    let request = ApiRequest {
        method: HttpMethod::Get,
        url: url(api_base, TASKS_PATH),
        access_token: Some(access_token.to_owned()),
        query,
    };
    assert(request@.query =~= tasks_request(
        api_base@,
        access_token@,
        limit as nat,
        token_view(device_id),
    ).query);
    request
}

/// What is said where not exactly one of password and code is given.
pub open spec fn not_one_credential() -> Seq<char> {
    "provide exactly one of password or verification code"@
}

/// The request that logs `account` in, with exactly one of a password and a code.
pub fn login(api_base: &str, account: &str, password: Option<&str>, code: Option<&str>) -> (r: Result<
    (ApiRequest, LoginRequest),
    String,
>)
    ensures
        match r {
            Ok((request, body)) => {
                &&& password is Some != code is Some
                &&& request@ == (RequestView {
                    method: HttpMethod::Post,
                    url: url_of(api_base@, LOGIN_PATH@),
                    access_token: None,
                    query: Seq::empty(),
                })
                &&& body.account@ == account@
                &&& text::chars(body.password) == token_view(password)
                &&& text::chars(body.code) == token_view(code)
            },
            Err(message) => password is Some == code is Some && message@ == not_one_credential(),
        },
{
    if password.is_some() == code.is_some() {
        return Err("provide exactly one of password or verification code".to_owned());
    }
    let request = ApiRequest {
        method: HttpMethod::Post,
        url: url(api_base, LOGIN_PATH),
        access_token: None,
        query: Vec::new(),
    };
    assert(request@.query =~= Seq::<(Seq<char>, Seq<char>)>::empty());
    let body = LoginRequest {
        account: account.to_owned(),
        password: copy_token(password),
        code: copy_token(code),
    };
    Ok((request, body))
}

// ---------------------------------------------------------------------------
// Answers
// ---------------------------------------------------------------------------

/// The body that is read: an answer without one counts as an empty object.
pub open spec fn body_of(bytes: Seq<u8>) -> Seq<u8> {
    if bytes.len() == 0 {
        vstd::utf8::encode_utf8("{}"@)
    } else {
        bytes
    }
}

/// The body that is read.
pub fn response_body(bytes: &[u8]) -> (r: &[u8])
    ensures
        r@ == body_of(bytes@),
{
    if bytes.len() == 0 {
        "{}".as_bytes()
    } else {
        bytes
    }
}

/// What is wrong with an answer, if anything: that its status could not be read from its body, that
/// its HTTP status is not one of success, or that it tells of an error.
pub open spec fn response_error(status: u16, body: Seq<u8>, api_status: Option<ApiStatus>) -> Option<
    Seq<char>,
> {
    match api_status {
        None => Some(
            "response was not a valid JSON object: "@ + text::beginning(body, PREVIEW_SIZE as nat),
        ),
        Some(api_status) => if !(200 <= status < 300) {
            Some(error::error_message(Some(status), api_status))
        } else if error::tells_of_error(api_status) {
            Some(error::error_message(None, api_status))
        } else {
            None
        },
    }
}

/// Checks an answer by its HTTP status, its body, and the status that was read from the body, if it
/// could be read.
pub fn check_response(status: u16, body: &[u8], api_status: Option<&ApiStatus>) -> (r: Result<
    (),
    String,
>)
    ensures
        match r {
            Ok(_) => response_error(
                status,
                body@,
                match api_status {
                    Some(api_status) => Some(*api_status),
                    None => None,
                },
            ) is None,
            Err(message) => response_error(
                status,
                body@,
                match api_status {
                    Some(api_status) => Some(*api_status),
                    None => None,
                },
            ) == Some(message@),
        },
{
    match api_status {
        None => Err(
            "response was not a valid JSON object: ".to_owned().concat(
                text::beginning_of(body, PREVIEW_SIZE).as_str(),
            ),
        ),
        Some(api_status) => if !(200 <= status && status < 300) {
            Err(error::api_error_message(Some(status), api_status))
        } else if error::response_body_is_error(api_status) {
            Err(error::api_error_message(None, api_status))
        } else {
            Ok(())
        },
    }
}

/// A path with one slash before it is appended to an address that does not end in one.
proof fn lemma_appended(api_base: Seq<char>, path: Seq<char>)
    requires
        api_base.len() > 0 ==> api_base.last() != '/',
        path.len() > 1,
        path[0] == '/',
        path[1] != '/',
    ensures
        url_of(api_base, path) == api_base + path,
{
    reveal_strlit("/");
    let rest = path.drop_first();
    assert(rest[0] == path[1]);
    assert(seq!['/'] + rest =~= path);
    text::law_ends_lose_one_character(rest, '/');
    text::law_ends_lose_one_character(api_base, '/');
    assert(api_base + "/"@ + rest =~= api_base + path);
}

/// The current prints are asked for at their address, as the user of the token, and to be up to date.
pub proof fn law_current_prints_are_asked_for(api_base: &str, access_token: &str, r: ApiRequest)
    requires
        api_base@.len() > 0 ==> api_base@.last() != '/',
        call_ensures(current_print, (api_base, access_token), r),
    ensures
        r.method == HttpMethod::Get,
        r.url@ == api_base@ + "/v1/iot-service/api/user/print"@,
        r.access_token is Some,
        r.access_token->0@ == access_token@,
        r.query@.len() == 1,
        r.query@[0].0@ == "force"@,
        r.query@[0].1@ == "true"@,
{
    reveal_strlit("/v1/iot-service/api/user/print");
    lemma_appended(api_base@, "/v1/iot-service/api/user/print"@);
    let query = query_view(r.query@);
    assert(query.len() == r.query@.len());
    assert(forall|i: int|
        0 <= i < r.query@.len() ==> (#[trigger] r.query@[i]).0@ == query[i].0 && r.query@[i].1@
            == query[i].1);
}

/// The bound devices are asked for at their address, as the user of the token, and with nothing else.
pub proof fn law_bound_devices_are_asked_for(api_base: &str, access_token: &str, r: ApiRequest)
    requires
        api_base@.len() > 0 ==> api_base@.last() != '/',
        call_ensures(bound_devices, (api_base, access_token), r),
    ensures
        r.method == HttpMethod::Get,
        r.url@ == api_base@ + "/v1/iot-service/api/user/bind"@,
        r.access_token is Some,
        r.access_token->0@ == access_token@,
        r.query@.len() == 0,
{
    reveal_strlit("/v1/iot-service/api/user/print");
    reveal_strlit("/v1/iot-service/api/user/bind");
    lemma_appended(api_base@, "/v1/iot-service/api/user/bind"@);
    assert("/v1/iot-service/api/user/bind"@.len() != "/v1/iot-service/api/user/print"@.len());
    let query = query_view(r.query@);
    assert(query.len() == r.query@.len());
    assert(forall|i: int|
        0 <= i < r.query@.len() ==> (#[trigger] r.query@[i]).0@ == query[i].0 && r.query@[i].1@
            == query[i].1);
}

/// The preferences are asked for at their address, as the user of the token, and with nothing else.
pub proof fn law_preferences_are_asked_for(api_base: &str, access_token: &str, r: ApiRequest)
    requires
        api_base@.len() > 0 ==> api_base@.last() != '/',
        call_ensures(user_preference, (api_base, access_token), r),
    ensures
        r.method == HttpMethod::Get,
        r.url@ == api_base@ + "/v1/design-user-service/my/preference"@,
        r.access_token is Some,
        r.access_token->0@ == access_token@,
        r.query@.len() == 0,
{
    reveal_strlit("/v1/iot-service/api/user/print");
    reveal_strlit("/v1/design-user-service/my/preference");
    lemma_appended(api_base@, "/v1/design-user-service/my/preference"@);
    assert("/v1/design-user-service/my/preference"@.len() != "/v1/iot-service/api/user/print"@.len());
    let query = query_view(r.query@);
    assert(query.len() == r.query@.len());
    assert(forall|i: int|
        0 <= i < r.query@.len() ==> (#[trigger] r.query@[i]).0@ == query[i].0 && r.query@[i].1@
            == query[i].1);
}

/// The latest tasks are asked for at their address, as the user of the token, no more than the limit,
/// and of one device where one is given.
pub proof fn law_tasks_are_asked_for(
    api_base: &str,
    access_token: &str,
    limit: usize,
    device_id: Option<&str>,
    r: ApiRequest,
)
    requires
        api_base@.len() > 0 ==> api_base@.last() != '/',
        call_ensures(tasks, (api_base, access_token, limit, device_id), r),
    ensures
        r.method == HttpMethod::Get,
        r.url@ == api_base@ + "/v1/user-service/my/tasks"@,
        r.access_token is Some,
        r.access_token->0@ == access_token@,
        r.query@.len() == (if device_id is Some {
            2nat
        } else {
            1nat
        }),
        r.query@[0].0@ == "limit"@,
        r.query@[0].1@ == text::decimal(limit as nat),
        device_id is Some ==> r.query@[1].0@ == "deviceId"@ && r.query@[1].1@ == device_id->0@,
{
    reveal_strlit("/v1/user-service/my/tasks");
    lemma_appended(api_base@, "/v1/user-service/my/tasks"@);
    let query = query_view(r.query@);
    assert(query.len() == r.query@.len());
    assert(forall|i: int|
        0 <= i < r.query@.len() ==> (#[trigger] r.query@[i]).0@ == query[i].0 && r.query@[i].1@
            == query[i].1);
}

/// A login is posted with the account and the one secret that was given; with none or with two,
/// nothing is posted.
pub proof fn law_login_is_posted(
    api_base: &str,
    account: &str,
    password: Option<&str>,
    code: Option<&str>,
    r: Result<(ApiRequest, LoginRequest), String>,
)
    requires
        api_base@.len() > 0 ==> api_base@.last() != '/',
        call_ensures(login, (api_base, account, password, code), r),
    ensures
        r is Ok <==> (password is Some && code is None) || (password is None && code is Some),
        r matches Ok((request, body)) ==> {
            &&& request.method == HttpMethod::Post
            &&& request.url@ == api_base@ + "/v1/user-service/user/login"@
            &&& request.access_token is None
            &&& request.query@.len() == 0
            &&& body.account@ == account@
            &&& body.password is Some <==> password is Some
            &&& body.code is Some <==> code is Some
            &&& password is Some ==> body.password->0@ == password->0@
            &&& code is Some ==> body.code->0@ == code->0@
        },
{
    reveal_strlit("/v1/user-service/user/login");
    lemma_appended(api_base@, "/v1/user-service/user/login"@);
    if let Ok((request, body)) = r {
        assert(query_view(request.query@).len() == request.query@.len());
    }
}

/// An answer is good where its HTTP status is one of success and what it carries tells of no error;
/// one whose body cannot be read is not.
pub proof fn law_good_answers_tell_of_no_error(
    status: u16,
    body: &[u8],
    api_status: Option<&ApiStatus>,
    r: Result<(), String>,
)
    requires
        call_ensures(check_response, (status, body, api_status), r),
    ensures
        r is Ok <==> api_status is Some && status >= 200 && status <= 299
            && !error::tells_of_error(*api_status->0),
        api_status is None ==> r->Err_0@ == "response was not a valid JSON object: "@
            + text::beginning(body@, 500),
        api_status is Some && (status < 200 || status >= 300) ==> r->Err_0@ == error::error_message(
            Some(status),
            *api_status->0,
        ),
        api_status is Some && 200 <= status && status < 300 && error::tells_of_error(
            *api_status->0,
        ) ==> r->Err_0@ == error::error_message(None, *api_status->0),
{
}

/// An answer without a body is read as an empty object, and any other as it is.
pub proof fn law_empty_answers_are_empty_objects(bytes: &[u8], r: &[u8])
    requires
        call_ensures(response_body, (bytes,), r),
    ensures
        bytes@.len() > 0 ==> r@ == bytes@,
        bytes@.len() == 0 ==> r@ == vstd::utf8::encode_utf8("{}"@),
{
}

/// The view of a request is what its fields hold.
pub proof fn law_view_of_a_request_is_what_it_holds(request: ApiRequest)
    ensures
        request@.method == request.method,
        request@.url == request.url@,
        request.access_token is Some <==> request@.access_token is Some,
        request.access_token is Some ==> request@.access_token == Some(request.access_token->0@),
        request@.query.len() == request.query@.len(),
{
}

} // verus!
