//! The command line: what its options mean, and how a login goes.
use crate::bambu::models::LoginResponse;
use crate::text;
use vstd::prelude::*;

verus! {

/// What is said of a `value` that is no positive integer.
pub open spec fn not_positive(value: Seq<char>) -> Seq<char> {
    "expected a positive integer, got `"@ + value + "`"@
}

/// The positive integer that `value` writes.
pub fn positive_usize(value: &str) -> (r: Result<usize, String>)
    ensures
        match r {
            Ok(parsed) => parsed > 0 && text::unsigned_value(value@, usize::MAX as nat) == Some(
                parsed as nat,
            ),
            Err(message) => {
                &&& text::unsigned_value(value@, usize::MAX as nat) is None
                    || text::unsigned_value(value@, usize::MAX as nat) == Some(0nat)
                &&& message@ == not_positive(value@)
            },
        },
{
    match text::parse_unsigned(value, usize::MAX as u64) {
        Some(parsed) => if parsed > 0 {
            Ok(parsed as usize)
        } else {
            Err("expected a positive integer, got `".to_owned().concat(value).concat("`"))
        },
        None => Err("expected a positive integer, got `".to_owned().concat(value).concat("`")),
    }
}

/// Whether the service asks for a code that it sent to the user.
pub open spec fn asks_for_code(login_response: LoginResponse) -> bool {
    login_response.login_type matches Some(login_type) && text::lowered(login_type@)
        == text::lowered("verifycode"@)
}

/// Whether the service asks for a code that it sent to the user.
pub fn requires_verification_code(login_response: &LoginResponse) -> (r: bool)
    ensures
        r == asks_for_code(*login_response),
{
    match &login_response.login_type {
        Some(login_type) => text::same_ignoring_case(login_type.as_str(), "verifycode"),
        None => false,
    }
}

// ---------------------------------------------------------------------------
// Logging in
// ---------------------------------------------------------------------------

/// How far a login has come.
#[derive(Debug)]
pub enum LoginStage {
    /// The account is being asked for.
    Account { password: Option<String>, code: Option<String> },
    /// The password is being asked for.
    Password { account: String },
    /// The service was asked to log the account in.
    Sent { account: String },
    /// The code that the service sent is being asked for.
    Code { account: String },
    /// The service was asked to log the account in with that code.
    SentCode,
    /// The login is over.
    Over,
}

/// What a login needs next.
#[derive(Debug)]
pub enum LoginAction {
    AskAccount,
    AskPassword,
    AskCode,
    SendPassword { account: String, password: String },
    SendCode { account: String, code: String },
    Save(LoginResponse),
    Fail(String),
}

/// What the user typed, or what the service answered.
#[derive(Debug)]
pub enum LoginReply {
    Text(String),
    Response(LoginResponse),
}

/// What is said where both a password and a code are given.
pub open spec fn both_given() -> Seq<char> {
    "set only one of --password or --code"@
}

/// Whether `r` is what happens once the account is known: a code is sent where one is given, else a
/// password, which is asked for where none is given.
pub open spec fn with_account(
    r: (LoginStage, LoginAction),
    account: String,
    password: Option<String>,
    code: Option<String>,
) -> bool {
    match (password, code) {
        (Some(_), Some(_)) => {
            &&& r.0 == LoginStage::Over
            &&& r.1 matches LoginAction::Fail(message)
            &&& message@ == both_given()
        },
        (None, Some(code)) => r == (
            LoginStage::Sent { account },
            LoginAction::SendCode { account, code },
        ),
        (Some(password), None) => r == (
            LoginStage::Sent { account },
            LoginAction::SendPassword { account, password },
        ),
        (None, None) => r == (LoginStage::Password { account }, LoginAction::AskPassword),
    }
}

/// What happens once the account is known.
fn take_account(account: String, password: Option<String>, code: Option<String>) -> (r: (
    LoginStage,
    LoginAction,
))
    ensures
        with_account(r, account, password, code),
{
    match (password, code) {
        (Some(_), Some(_)) => (
            LoginStage::Over,
            LoginAction::Fail("set only one of --password or --code".to_owned()),
        ),
        (None, Some(code)) => {
            let sent = account.clone();
            (LoginStage::Sent { account }, LoginAction::SendCode { account: sent, code })
        },
        (Some(password), None) => {
            let sent = account.clone();
            (LoginStage::Sent { account }, LoginAction::SendPassword { account: sent, password })
        },
        (None, None) => (LoginStage::Password { account }, LoginAction::AskPassword),
    }
}

/// A login with the given options. The account is asked for where none is given.
pub fn begin_login(account: Option<String>, password: Option<String>, code: Option<String>) -> (r: (
    LoginStage,
    LoginAction,
))
    ensures
        match account {
            Some(account) => with_account(r, account, password, code),
            None => r == (LoginStage::Account { password, code }, LoginAction::AskAccount),
        },
{
    match account {
        Some(account) => take_account(account, password, code),
        None => (LoginStage::Account { password, code }, LoginAction::AskAccount),
    }
}

impl LoginStage {
    /// Whether `reply` is what a login at this stage waits for.
    pub open spec fn awaits(self, reply: LoginReply) -> bool {
        match self {
            LoginStage::Account { .. } => reply is Text,
            LoginStage::Password { .. } => reply is Text,
            LoginStage::Sent { .. } => reply is Response,
            LoginStage::Code { .. } => reply is Text,
            LoginStage::SentCode => reply is Response,
            LoginStage::Over => false,
        }
    }

    /// Whether `reply` is what a login at this stage waits for.
    pub fn accepts(&self, reply: &LoginReply) -> (r: bool)
        ensures
            r == self.awaits(*reply),
    {
        match (self, reply) {
            (LoginStage::Account { .. }, LoginReply::Text(_)) => true,
            (LoginStage::Password { .. }, LoginReply::Text(_)) => true,
            (LoginStage::Sent { .. }, LoginReply::Response(_)) => true,
            (LoginStage::Code { .. }, LoginReply::Text(_)) => true,
            (LoginStage::SentCode, LoginReply::Response(_)) => true,
            _ => false,
        }
    }

    /// What a login needs next: where the service asks for a code, it is asked for and sent, once;
    /// else what the service answered is saved.
    pub fn advance(self, reply: LoginReply) -> (r: (LoginStage, LoginAction))
        requires
            self.awaits(reply),
        ensures
            match (self, reply) {
                (LoginStage::Account { password, code }, LoginReply::Text(account)) => with_account(
                    r,
                    account,
                    password,
                    code,
                ),
                (LoginStage::Password { account }, LoginReply::Text(password)) => r == (
                    LoginStage::Sent { account },
                    LoginAction::SendPassword { account, password },
                ),
                (LoginStage::Sent { account }, LoginReply::Response(response)) => r == (
                    if asks_for_code(response) {
                        (LoginStage::Code { account }, LoginAction::AskCode)
                    } else {
                        (LoginStage::Over, LoginAction::Save(response))
                    }
                ),
                (LoginStage::Code { account }, LoginReply::Text(code)) => r == (
                    LoginStage::SentCode,
                    LoginAction::SendCode { account, code },
                ),
                (_, LoginReply::Response(response)) => r == (
                    LoginStage::Over,
                    LoginAction::Save(response),
                ),
                _ => true,
            },
    {
        match (self, reply) {
            (LoginStage::Account { password, code }, LoginReply::Text(account)) => take_account(
                account,
                password,
                code,
            ),
            (LoginStage::Password { account }, LoginReply::Text(password)) => {
                let sent = account.clone();
                (
                    LoginStage::Sent { account },
                    LoginAction::SendPassword { account: sent, password },
                )
            },
            (LoginStage::Sent { account }, LoginReply::Response(response)) => {
                if requires_verification_code(&response) {
                    (LoginStage::Code { account }, LoginAction::AskCode)
                } else {
                    (LoginStage::Over, LoginAction::Save(response))
                }
            },
            (LoginStage::Code { account }, LoginReply::Text(code)) => (
                LoginStage::SentCode,
                LoginAction::SendCode { account, code },
            ),
            (_, LoginReply::Response(response)) => (LoginStage::Over, LoginAction::Save(response)),
            (_, LoginReply::Text(_)) => vstd::pervasive::unreached(),
        }
    }
}

/// The numbers that are taken are the positive ones that a machine word holds.
pub proof fn law_positive_numbers_are_taken(n: nat, value: &str, r: Result<usize, String>)
    requires
        value@ == text::decimal(n),
        call_ensures(positive_usize, (value,), r),
    ensures
        0 < n <= usize::MAX ==> r is Ok && r->Ok_0 == n,
        n == 0 || n > usize::MAX ==> r is Err,
{
    text::law_numbers_are_read_in_tens(seq![], 0, n, usize::MAX as nat);
}

/// The service asks for a code where it says `verifycode`, in whatever case.
pub proof fn law_code_is_asked_for(login_response: &LoginResponse, r: bool)
    requires
        call_ensures(requires_verification_code, (login_response,), r),
    ensures
        login_response.login_type is None ==> !r,
        login_response.login_type matches Some(said) ==> {
            let word = "verifycode"@;
            r <==> said@.len() == word.len() && forall|i: int|
                0 <= i < word.len() ==> {
                    ||| #[trigger] said@[i] == word[i]
                    ||| said@[i] as u32 + 32 == word[i] as u32
                }
        },
{
    reveal_strlit("verifycode");
    let word = "verifycode"@;
    if let Some(said) = login_response.login_type {
        text::law_case_is_that_of_ascii('a', said@);
        text::law_case_is_that_of_ascii('a', word);
        assert(text::lowered(word) =~= word);
        if text::lowered(said@) == word {
            assert forall|i: int| 0 <= i < word.len() implies {
                ||| #[trigger] said@[i] == word[i]
                ||| said@[i] as u32 + 32 == word[i] as u32
            } by {
                assert(text::lowered(said@)[i] == text::lower(said@[i]));
            }
        }
        if said@.len() == word.len() && forall|i: int|
            0 <= i < word.len() ==> {
                ||| #[trigger] said@[i] == word[i]
                ||| said@[i] as u32 + 32 == word[i] as u32
            } {
            assert forall|i: int| 0 <= i < word.len() implies text::lowered(said@)[i]
                == word[i] by {
                assert(said@[i] == word[i] || said@[i] as u32 + 32 == word[i] as u32);
                assert('a' <= word[i] <= 'z');
            }
            assert(text::lowered(said@) =~= word);
        }
    }
}

/// A login sends the account that was given, with the one secret that was given with it, and asks for
/// what is missing: first the account, then a password. Two secrets are one too many.
pub proof fn law_login_sends_what_was_given(
    account: String,
    password: Option<String>,
    code: Option<String>,
    r: (LoginStage, LoginAction),
)
    requires
        call_ensures(begin_login, (Some(account), password, code), r),
    ensures
        password is Some && code is Some ==> r.1 is Fail && r.0 == LoginStage::Over,
        password is None && code is Some ==> r.1 == (LoginAction::SendCode {
            account,
            code: code->0,
        }) && r.0 == (LoginStage::Sent { account }),
        password is Some && code is None ==> r.1 == (LoginAction::SendPassword {
            account,
            password: password->0,
        }) && r.0 == (LoginStage::Sent { account }),
        password is None && code is None ==> r.1 is AskPassword && r.0 == (LoginStage::Password {
            account,
        }),
{
}

/// A login without an account asks for it first, and then goes on as if it had been given.
pub proof fn law_login_asks_for_the_account(
    account: String,
    password: Option<String>,
    code: Option<String>,
    first: (LoginStage, LoginAction),
    asked: (LoginStage, LoginAction),
)
    requires
        call_ensures(begin_login, (None, password, code), first),
        call_ensures(LoginStage::advance, (first.0, LoginReply::Text(account)), asked),
    ensures
        first.1 is AskAccount,
        password is Some && code is Some ==> asked.1 is Fail,
        password is None && code is Some ==> asked.1 == (LoginAction::SendCode {
            account,
            code: code->0,
        }),
        password is Some && code is None ==> asked.1 == (LoginAction::SendPassword {
            account,
            password: password->0,
        }),
        password is None && code is None ==> asked.1 is AskPassword,
{
}

/// A password that was asked for is sent with its account. Where the service then asks for a code,
/// the code that the user types is sent for the same account, and what is answered to that is kept,
/// whatever it is; where it does not, its first answer is kept.
pub proof fn law_login_sends_the_code_it_is_asked_for(
    account: String,
    password: String,
    response: LoginResponse,
    code: String,
    answer: LoginResponse,
    sent: (LoginStage, LoginAction),
    answered: (LoginStage, LoginAction),
    typed: (LoginStage, LoginAction),
    ended: (LoginStage, LoginAction),
)
    requires
        call_ensures(
            LoginStage::advance,
            (LoginStage::Password { account }, LoginReply::Text(password)),
            sent,
        ),
        call_ensures(LoginStage::advance, (sent.0, LoginReply::Response(response)), answered),
        asks_for_code(response) ==> call_ensures(
            LoginStage::advance,
            (answered.0, LoginReply::Text(code)),
            typed,
        ) && call_ensures(LoginStage::advance, (typed.0, LoginReply::Response(answer)), ended),
    ensures
        sent.1 == (LoginAction::SendPassword { account, password }),
        !asks_for_code(response) ==> answered.1 == LoginAction::Save(response) && answered.0
            == LoginStage::Over,
        asks_for_code(response) ==> {
            &&& answered.1 is AskCode
            &&& typed.1 == (LoginAction::SendCode { account, code })
            &&& ended.1 == LoginAction::Save(answer)
            &&& ended.0 == LoginStage::Over
        },
{
}

/// What a login at each stage waits for: what the user types, or what the service answers.
pub proof fn law_each_stage_waits_for_its_reply(
    account: String,
    password: Option<String>,
    code: Option<String>,
    typed: String,
    response: LoginResponse,
)
    ensures
        (LoginStage::Account { password, code }).awaits(LoginReply::Text(typed)),
        (LoginStage::Password { account }).awaits(LoginReply::Text(typed)),
        (LoginStage::Code { account }).awaits(LoginReply::Text(typed)),
        (LoginStage::Sent { account }).awaits(LoginReply::Response(response)),
        LoginStage::SentCode.awaits(LoginReply::Response(response)),
        !(LoginStage::Sent { account }).awaits(LoginReply::Text(typed)),
        !LoginStage::SentCode.awaits(LoginReply::Text(typed)),
        forall|reply: LoginReply| !LoginStage::Over.awaits(reply),
        both_given() == "set only one of --password or --code"@,
{
}

} // verus!
