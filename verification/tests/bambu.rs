use bambu_overlay::auth::{
    has_token, is_expiry_on_calendar, saved_token, session, token_path, TokenBase, TokenData,
};
use bambu_overlay::bambu::client::{
    bound_devices, check_response, current_print, login, response_body, tasks, url,
    user_preference, HttpMethod,
};
use bambu_overlay::bambu::error::{
    api_error_message, response_body_is_error, ApiField, ApiStatus, Reported,
};
use bambu_overlay::bambu::models::{
    AmsState, AmsUnit, LoginResponse, PrinterStatus, Real, Task, Tray, UserPreference,
};
use bambu_overlay::cli::{
    begin_login, positive_usize, requires_verification_code, LoginAction, LoginReply, LoginStage,
};
use bambu_overlay::time::{Instant, FIRST_SECOND, LAST_SECOND};

fn api_status(code: Reported, error: Reported, message: Reported) -> ApiStatus {
    ApiStatus {
        code: ApiField::from_reported(code),
        error: ApiField::from_reported(error),
        message: ApiField::from_reported(message),
    }
}

#[test]
fn success_envelope_with_null_error_fields_is_not_an_error() {
    let body = api_status(Reported::Null, Reported::Null, Reported::Text("success"));

    assert!(!response_body_is_error(&body));
}

#[test]
fn success_code_zero_is_not_an_error() {
    let with_code = |code: ApiField| ApiStatus { code, ..ApiStatus::default() };
    assert!(!response_body_is_error(&with_code(ApiField::from_reported(Reported::Unsigned(0)))));
    assert!(!response_body_is_error(&with_code(ApiField::from_reported(Reported::Text("0")))));
}

#[test]
fn non_empty_error_or_non_zero_code_is_an_error() {
    assert!(response_body_is_error(&ApiStatus {
        error: ApiField::from_reported(Reported::Text("Resource forbidden")),
        ..ApiStatus::default()
    }));
    assert!(response_body_is_error(&ApiStatus {
        code: ApiField::from_reported(Reported::Unsigned(8)),
        ..ApiStatus::default()
    }));
}

#[test]
fn success_message_is_not_used_as_error_detail() {
    let body = ApiStatus {
        message: ApiField::from_reported(Reported::Text("success")),
        code: ApiField::from_reported(Reported::Unsigned(8)),
        ..ApiStatus::default()
    };

    assert_eq!(api_error_message(None, &body), "Bambu API error: 8");
}

#[test]
fn api_fields_are_read_by_shape() {
    assert_eq!(ApiField::from_reported(Reported::Null), ApiField::Empty);
    assert_eq!(ApiField::from_reported(Reported::Flag), ApiField::Other);
    assert_eq!(ApiField::from_reported(Reported::List), ApiField::Other);
    assert_eq!(ApiField::from_reported(Reported::Object), ApiField::Other);
    assert_eq!(
        ApiField::from_reported(Reported::Signed(i64::MIN)),
        ApiField::Text("-9223372036854775808".to_owned())
    );
    assert_eq!(
        ApiField::from_reported(Reported::Unsigned(u64::MAX)),
        ApiField::Text("18446744073709551615".to_owned())
    );
    assert_eq!(
        ApiField::from_reported(Reported::Fraction("1.5".to_owned())),
        ApiField::Text("1.5".to_owned())
    );
    assert_eq!(
        ApiField::from_reported(Reported::Text("  forbidden ")),
        ApiField::Text("forbidden".to_owned())
    );
    assert_eq!(ApiField::from_reported(Reported::Text(" \t")), ApiField::Empty);
    assert_eq!(ApiField::Text("x".to_owned()).text(), Some("x"));
    assert_eq!(ApiField::Text(" ".to_owned()).text(), None);
    assert_eq!(ApiField::Other.text(), None);
}

#[test]
fn api_errors_prefer_the_error_field() {
    let body = api_status(
        Reported::Signed(-3),
        Reported::Text("forbidden"),
        Reported::Text("no access"),
    );
    assert_eq!(api_error_message(Some(403), &body), "HTTP 403: forbidden");
    let body = api_status(Reported::Signed(-3), Reported::Text("SUCCESS"), Reported::Text("no access"));
    assert_eq!(api_error_message(Some(500), &body), "HTTP 500: no access");
    assert!(response_body_is_error(&body));
    assert_eq!(api_error_message(None, &ApiStatus::default()), "Bambu API error");
    let body = api_status(Reported::Null, Reported::Flag, Reported::Null);
    assert!(response_body_is_error(&body));
    assert_eq!(api_error_message(None, &body), "Bambu API error");
}

#[test]
fn requests_are_addressed_and_authorised() {
    assert_eq!(url("https://api.example.test//", "//v1/x"), "https://api.example.test/v1/x");
    let request = current_print("https://api.example.test/", "token");
    assert_eq!(request.method, HttpMethod::Get);
    assert_eq!(request.url, "https://api.example.test/v1/iot-service/api/user/print");
    assert_eq!(request.access_token.as_deref(), Some("token"));
    assert_eq!(request.query, [("force".to_owned(), "true".to_owned())]);
    let request = user_preference("https://api.example.test", "token");
    assert_eq!(request.url, "https://api.example.test/v1/design-user-service/my/preference");
    assert!(request.query.is_empty());
    let request = bound_devices("https://api.example.test", "token");
    assert_eq!(request.url, "https://api.example.test/v1/iot-service/api/user/bind");
    let request = tasks("https://api.example.test", "token", 20, Some("printer-a"));
    assert_eq!(request.url, "https://api.example.test/v1/user-service/my/tasks");
    assert_eq!(
        request.query,
        [
            ("limit".to_owned(), "20".to_owned()),
            ("deviceId".to_owned(), "printer-a".to_owned()),
        ]
    );
    assert_eq!(tasks("b", "t", 1, None).query.len(), 1);
}

#[test]
fn login_takes_exactly_one_credential() {
    let (request, body) = login("https://api.example.test", "me", Some("secret"), None).unwrap();
    assert_eq!(request.method, HttpMethod::Post);
    assert_eq!(request.url, "https://api.example.test/v1/user-service/user/login");
    assert_eq!(request.access_token, None);
    assert_eq!(body.account, "me");
    assert_eq!(body.password.as_deref(), Some("secret"));
    assert_eq!(body.code, None);
    assert!(login("b", "me", None, Some("123456")).is_ok());
    for (password, code) in [(None, None), (Some("secret"), Some("123456"))] {
        assert_eq!(
            login("b", "me", password, code).unwrap_err(),
            "provide exactly one of password or verification code"
        );
    }
}

#[test]
fn answers_are_checked_by_status_and_body() {
    assert_eq!(response_body(b""), b"{}");
    assert_eq!(response_body(b"x"), b"x");
    let fine = ApiStatus::default();
    assert!(check_response(200, b"{}", Some(&fine)).is_ok());
    assert!(check_response(299, b"{}", Some(&fine)).is_ok());
    assert_eq!(check_response(300, b"{}", Some(&fine)).unwrap_err(), "HTTP 300");
    assert_eq!(check_response(199, b"{}", Some(&fine)).unwrap_err(), "HTTP 199");
    let wrong = api_status(Reported::Unsigned(8), Reported::Null, Reported::Null);
    assert_eq!(check_response(200, b"{}", Some(&wrong)).unwrap_err(), "Bambu API error: 8");
    assert_eq!(
        check_response(200, b"<html>\xff", None).unwrap_err(),
        "response was not a valid JSON object: <html>\u{fffd}"
    );
    assert_eq!(
        check_response(200, &vec![b'x'; 501], None).unwrap_err(),
        format!("response was not a valid JSON object: {}", "x".repeat(500))
    );
}

#[test]
fn user_preference_reads_only_uid_for_mqtt_user_id() {
    let preference = UserPreference { uid: Some("u_123456".to_owned()) };

    assert_eq!(preference.mqtt_user_id().as_deref(), Some("123456"));

    let preference = UserPreference::default();

    assert_eq!(preference.mqtt_user_id(), None);
}

#[test]
fn user_names_lose_one_prefix() {
    let user = |uid: &str| UserPreference { uid: Some(uid.to_owned()) }.mqtt_user_id();
    assert_eq!(user(" u_u_7\n").as_deref(), Some("u_7"));
    assert_eq!(user("7").as_deref(), Some("7"));
    assert_eq!(user(" "), None);
    assert_eq!(user("u_"), None);
}

fn quantity(value: f64) -> Option<Real> {
    Some(Real { bits: value.to_bits() })
}

#[test]
fn printer_status_merge_updates_every_field() {
    let mut base = PrinterStatus {
        task_id: Some("old".to_owned()),
        task_name: Some("old name".to_owned()),
        status: Some("RUNNING".to_owned()),
        progress: quantity(10.0),
        prediction_seconds: quantity(100.0),
        start_time: Some("2026-05-11T00:00:00Z".to_owned()),
        filename: Some("old.3mf".to_owned()),
        weight: Some("10".to_owned()),
        layer_current: Some(1),
        layer_total: Some(2),
        remaining_minutes: quantity(90.0),
        toolhead_temperature: quantity(200.0),
        bed_temperature: quantity(55.0),
        fan_speed: quantity(30.0),
        speed_level: Some(2),
        ..PrinterStatus::default()
    };
    let patch = PrinterStatus {
        task_id: Some("new".to_owned()),
        task_name: Some("new name".to_owned()),
        status: Some("FINISH".to_owned()),
        progress: quantity(100.0),
        prediction_seconds: quantity(200.0),
        start_time: Some("2026-05-11T01:00:00Z".to_owned()),
        filename: Some("new.3mf".to_owned()),
        weight: Some("20".to_owned()),
        layer_current: Some(3),
        layer_total: Some(4),
        remaining_minutes: quantity(0.0),
        toolhead_temperature: quantity(205.0),
        bed_temperature: quantity(60.0),
        fan_speed: quantity(40.0),
        external_tray: Some(Tray {
            id: Some(255),
            material: Some("PLA".to_owned()),
            ..Tray::default()
        }),
        ams: Some(AmsState {
            ams: vec![AmsUnit {
                id: Some(0),
                tray: vec![Tray {
                    id: Some(0),
                    material: Some("PETG".to_owned()),
                    ..Tray::default()
                }],
            }],
        }),
        speed_level: Some(3),
    };

    base.merge(patch.clone());

    assert_eq!(base, patch);
}

#[test]
fn empty_reports_change_nothing() {
    let mut base = PrinterStatus { task_id: Some("1".to_owned()), ..PrinterStatus::default() };
    base.merge(PrinterStatus::default());
    assert_eq!(base.task_id.as_deref(), Some("1"));
}

#[test]
fn titles_fall_back() {
    let title = |title: Option<&str>, design: Option<&str>, translated: Option<&str>| {
        Task {
            title: title.map(str::to_owned),
            design_title: design.map(str::to_owned),
            translated_title: translated.map(str::to_owned),
            ..Task::default()
        }
        .display_title()
    };
    assert_eq!(title(Some("a"), Some("b"), Some("c")).as_deref(), Some("a"));
    assert_eq!(title(None, Some("b"), Some("c")).as_deref(), Some("b"));
    assert_eq!(title(None, None, Some("c")).as_deref(), Some("c"));
    assert_eq!(title(None, None, None), None);
}

fn login_response(access_token: Option<&str>, login_type: Option<&str>) -> LoginResponse {
    LoginResponse {
        access_token: access_token.map(str::to_owned),
        refresh_token: Some("refresh".to_owned()),
        expires_in: Some(90),
        login_type: login_type.map(str::to_owned),
    }
}

#[test]
fn saved_tokens_are_dated_and_used() {
    let now = Instant { secs: 1_778_457_600, nanos: 500_000_000 };
    let saved = saved_token(&login_response(Some("token"), None), "https://api.test", now).unwrap();
    assert_eq!(saved.access_token, "token");
    assert_eq!(saved.refresh_token.as_deref(), Some("refresh"));
    assert_eq!(saved.created_at, "2026-05-11T00:00:00.500+00:00");
    assert_eq!(saved.expires_at.as_deref(), Some("2026-05-11T00:01:30.500+00:00"));
    assert_eq!(saved.expires_in, Some(90));
    let loaded = TokenData {
        access_token: Some(saved.access_token),
        api_base: Some(saved.api_base),
    };
    assert_eq!(session(&loaded).unwrap(), ("token".to_owned(), "https://api.test".to_owned()));

    for token in [None, Some("")] {
        assert_eq!(
            saved_token(&login_response(token, None), "b", now).unwrap_err(),
            "cannot save token: login response did not include accessToken"
        );
    }
}

#[test]
fn sessions_need_a_token_and_have_an_address() {
    let token = |access_token: Option<&str>, api_base: Option<&str>| TokenData {
        access_token: access_token.map(str::to_owned),
        api_base: api_base.map(str::to_owned),
    };
    assert_eq!(
        session(&token(Some("t"), Some(""))).unwrap(),
        ("t".to_owned(), "https://api.bambulab.com".to_owned())
    );
    assert_eq!(session(&token(Some("t"), None)).unwrap().1, "https://api.bambulab.com");
    for missing in [None, Some("")] {
        assert_eq!(
            session(&token(missing, Some("b"))).unwrap_err(),
            "cached token file does not include accessToken"
        );
    }
}

#[test]
fn expiries_lie_on_the_calendar() {
    let now = Instant { secs: 0, nanos: 0 };
    assert!(is_expiry_on_calendar(now, None));
    assert!(is_expiry_on_calendar(now, Some(LAST_SECOND)));
    assert!(!is_expiry_on_calendar(now, Some(LAST_SECOND + 1)));
    assert!(is_expiry_on_calendar(now, Some(FIRST_SECOND)));
    assert!(!is_expiry_on_calendar(Instant { secs: i64::MAX, nanos: 0 }, Some(i64::MAX)));
}

#[test]
fn token_files_have_a_place() {
    assert_eq!(token_path(true, true, true), (TokenBase::Given, vec![]));
    assert_eq!(
        token_path(false, true, true),
        (TokenBase::StateHome, vec!["bambu-overlay", "token.json"])
    );
    let steps = vec![".local", "state", "bambu-overlay", "token.json"];
    assert_eq!(token_path(false, false, true), (TokenBase::Home, steps.clone()));
    assert_eq!(token_path(false, false, false), (TokenBase::Here, steps));
}

#[test]
fn positive_integers_are_read() {
    assert_eq!(positive_usize("20"), Ok(20));
    assert_eq!(positive_usize("+7"), Ok(7));
    assert_eq!(positive_usize("18446744073709551615"), Ok(usize::MAX));
    for value in ["0", "", "-1", "1.5", " 1", "18446744073709551616", "x"] {
        assert_eq!(
            positive_usize(value).unwrap_err(),
            format!("expected a positive integer, got `{value}`")
        );
    }
}

#[test]
fn logins_with_a_password_may_need_a_code() {
    let (stage, action) = begin_login(None, None, None);
    assert!(matches!(action, LoginAction::AskAccount));
    let reply = LoginReply::Text("me".to_owned());
    assert!(stage.accepts(&reply));
    let (stage, action) = stage.advance(reply);
    assert!(matches!(action, LoginAction::AskPassword));
    let (stage, action) = stage.advance(LoginReply::Text("secret".to_owned()));
    assert!(matches!(
        action,
        LoginAction::SendPassword { account, password } if account == "me" && password == "secret"
    ));
    assert!(!stage.accepts(&LoginReply::Text(String::new())));
    let (stage, action) =
        stage.advance(LoginReply::Response(login_response(None, Some("VerifyCode"))));
    assert!(matches!(action, LoginAction::AskCode));
    let (stage, action) = stage.advance(LoginReply::Text("123456".to_owned()));
    assert!(matches!(
        action,
        LoginAction::SendCode { account, code } if account == "me" && code == "123456"
    ));
    let (stage, action) =
        stage.advance(LoginReply::Response(login_response(Some("t"), Some("verifyCode"))));
    assert!(matches!(action, LoginAction::Save(_)));
    assert!(matches!(stage, LoginStage::Over));
}

#[test]
fn logins_take_one_credential() {
    let text = |value: &str| Some(value.to_owned());
    let (_, action) = begin_login(text("me"), text("secret"), text("1"));
    assert!(matches!(action, LoginAction::Fail(message) if message == "set only one of --password or --code"));
    let (stage, action) = begin_login(text("me"), None, text("1"));
    assert!(matches!(action, LoginAction::SendCode { .. }));
    let (_, action) = stage.advance(LoginReply::Response(login_response(Some("t"), None)));
    assert!(matches!(action, LoginAction::Save(_)));
    let (_, action) = begin_login(text("me"), text("secret"), None);
    assert!(matches!(action, LoginAction::SendPassword { .. }));
    assert!(requires_verification_code(&login_response(None, Some("verifycode"))));
    assert!(!requires_verification_code(&login_response(None, Some("password"))));
    assert!(!requires_verification_code(&login_response(None, None)));
}

#[test]
fn missing_tokens_are_told_before_expiries() {
    let now = Instant { secs: 1_778_457_600, nanos: 0 };
    for token in [None, Some("")] {
        let mut response = login_response(token, None);
        response.expires_in = Some(i64::MAX);
        assert!(!has_token(&response));
        assert!(saved_token(&response, "b", now).unwrap_err().contains("accessToken"));
    }
    assert!(has_token(&login_response(Some("t"), None)));
}
