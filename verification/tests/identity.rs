use axum::http::{HeaderMap, HeaderValue};
use serde_json::Value;
use vault_identity::clock::Timestamp;
use vault_identity::codec::sha256_hex;
use vault_identity::error::AppError;
use vault_identity::flow::{Action, DbFailure, Outcome, Reply, Step, UserRow};
use vault_identity::identity::{
    answer_with_cookies, answer_with_tokens, decide, grant, invalid_two_factor_response,
    carry_out, note_device, refresh, renew, token, two_factor_required_response, Cookie, Decision, TokenState,
    REMEMBERED_HASH, SAVE_DEVICE, USER_BY_EMAIL, USER_BY_ID,
};
use vault_identity::json::Json;
use vault_identity::request::TokenRequest;
use vault_identity::sql::{Cell, Fetch, Row, SqlValue, Statement, ALTER_DEVICES, CREATE_DEVICES};
use vault_identity::tokens::{issue_tokens, Claims, IssuedTokens, Secrets, User};

fn value(json: &Json) -> Value {
    match json {
        Json::Null => Value::Null,
        Json::Bool(b) => Value::from(*b),
        Json::Integer(n) => Value::from(*n),
        Json::Text(s) => Value::from(s.as_str()),
        Json::Array(items) => Value::Array(items.iter().map(value).collect()),
        Json::Object(members) => {
            Value::Object(members.iter().map(|(k, v)| (k.clone(), value(v))).collect())
        },
    }
}

fn user() -> User {
    User {
        id: "user-1".to_string(),
        name: None,
        email: "alice@example.com".to_string(),
        master_password_hash: "hash".to_string(),
        key: "2.key".to_string(),
        private_key: "2.private".to_string(),
        public_key: "public".to_string(),
        kdf_type: 0,
        kdf_iterations: 600000,
    }
}

fn secrets() -> Secrets {
    Secrets {
        jwt_secret: Ok("access".to_string()),
        jwt_refresh_secret: Ok("refresh".to_string()),
        two_factor_enc_key: Some("enc".to_string()),
    }
}

fn form(grant_type: &str) -> TokenRequest {
    TokenRequest {
        grant_type: grant_type.to_string(),
        username: None,
        password: None,
        refresh_token: None,
        scope: None,
        client_id: None,
        device_identifier: None,
        device_name: None,
        device_type: None,
        two_factor_token: None,
        two_factor_provider: None,
        two_factor_remember: None,
    }
}

fn sign_in() -> TokenRequest {
    let mut f = form("password");
    f.username = Some("Alice@Example.com".to_string());
    f.password = Some("hash".to_string());
    f
}

fn from_device() -> TokenRequest {
    let mut f = sign_in();
    f.device_identifier = Some("dev-1".to_string());
    f.device_name = Some("web".to_string());
    f.device_type = Some(9);
    f
}

fn cookies(raw: &'static str) -> HeaderMap {
    let mut map = HeaderMap::new();
    map.append("cookie", HeaderValue::from_static(raw));
    map
}

fn params(s: &Statement) -> Vec<String> {
    s.params
        .iter()
        .map(|p| match p {
            SqlValue::Null => "null".to_string(),
            SqlValue::Integer(n) => format!("#{}", n),
            SqlValue::Text(t) => format!("'{}'", t),
        })
        .collect()
}

fn performs(step: Step<TokenState>) -> (Action, TokenState) {
    match step {
        Step::Perform(a, state) => (a, state),
        Step::Answer(Err(e)) => panic!("{:?}", e),
        Step::Answer(Ok(r)) => panic!("{:?}", r.body),
    }
}

fn asks(step: Step<TokenState>) -> (Statement, TokenState) {
    match performs(step) {
        (Action::Query(s), state) => (s, state),
        (other, _) => panic!("{:?}", other),
    }
}

fn answered(step: Step<TokenState>) -> Reply {
    match step {
        Step::Answer(Ok(r)) => r,
        Step::Answer(Err(e)) => panic!("{:?}", e),
        Step::Perform(a, _) => panic!("{:?}", a),
    }
}

fn refused(step: Step<TokenState>) -> AppError {
    match step {
        Step::Answer(Err(e)) => e,
        Step::Answer(Ok(r)) => panic!("{:?}", r.body),
        Step::Perform(a, _) => panic!("{:?}", a),
    }
}

fn go(headers: &HeaderMap, f: &TokenRequest, state: TokenState, o: Outcome) -> Step<TokenState> {
    token(headers, f, &secrets(), state, o)
}

fn sent_cookies(reply: &Reply) -> Vec<String> {
    reply.headers.get_all("set-cookie").iter().map(|v| v.to_str().unwrap().to_string()).collect()
}

fn hash_row(hash: &str) -> Outcome {
    Outcome::Row(Some(Row {
        columns: vec![("remember_token_hash".to_string(), Cell::Text(hash.to_string()))],
    }))
}

const NOW: Timestamp = Timestamp { secs: 1700000000, nanos: 0 };

fn issued() -> IssuedTokens {
    match issue_tokens(&user(), &secrets(), &NOW) {
        Ok(i) => i,
        Err(e) => panic!("{:?}", e),
    }
}

// ---- refusals ----

#[test]
fn a_second_factor_is_asked_for() {
    let text = "{\"TwoFactorProviders\":[\"0\"],\"TwoFactorProviders2\":{\"0\":null},\
        \"MasterPasswordPolicy\":{\"Object\":\"masterPasswordPolicy\"},\
        \"error\":\"invalid_grant\",\"error_description\":\"Two factor required.\"}";
    let expected: Value = serde_json::from_str(text).unwrap();
    let reply = two_factor_required_response();
    assert_eq!(reply.status, 400);
    assert!(reply.headers.is_empty());
    assert_eq!(value(&reply.body), expected);
}

#[test]
fn a_wrong_code_is_answered() {
    let text = "{\"TwoFactorProviders\":[\"0\"],\"TwoFactorProviders2\":{\"0\":null},\
        \"MasterPasswordPolicy\":{\"Object\":\"masterPasswordPolicy\"},\
        \"error\":\"invalid_grant\",\"error_description\":\"Invalid two factor token.\"}";
    let expected: Value = serde_json::from_str(text).unwrap();
    let reply = invalid_two_factor_response();
    assert_eq!(reply.status, 400);
    assert_eq!(value(&reply.body), expected);
}

#[test]
fn a_request_that_lacks_something_is_answered_so() {
    let headers = HeaderMap::new();
    let start = |f: &TokenRequest| match refused(go(&headers, f, TokenState::Start, Outcome::Done)) {
        AppError::BadRequest(m) => m,
        e => panic!("{:?}", e),
    };
    assert_eq!(start(&form("client_credentials")), "Unsupported grant_type");
    assert_eq!(start(&form("")), "Unsupported grant_type");
    assert_eq!(start(&form("password")), "Missing username");
    let mut f = form("password");
    f.password = Some("x".to_string());
    assert_eq!(start(&f), "Missing username");
    let mut f = form("password");
    f.username = Some("x".to_string());
    assert_eq!(start(&f), "Missing password");
    assert_eq!(start(&form("refresh_token")), "Missing refresh_token");
}

// ---- the password ----

#[test]
fn an_account_is_looked_up_by_its_address_in_lower_case() {
    let headers = HeaderMap::new();
    let (s, state) = asks(go(&headers, &sign_in(), TokenState::Start, Outcome::Done));
    assert_eq!(s.sql, USER_BY_EMAIL);
    assert_eq!(params(&s), vec!["'alice@example.com'"]);
    assert_eq!(s.fetch, Fetch::FirstUser);
    assert!(matches!(state, TokenState::FindingUser));
}

#[test]
fn a_wrong_password_is_answered_as_no_account() {
    let headers = HeaderMap::new();
    let mut wrong = sign_in();
    wrong.password = Some("hasH".to_string());
    for (f, outcome) in [
        (&wrong, Outcome::User(UserRow::Found(user()))),
        (&wrong, Outcome::User(UserRow::Missing)),
        (&sign_in(), Outcome::User(UserRow::Missing)),
        (&sign_in(), Outcome::Failed(DbFailure::Run)),
    ] {
        match refused(go(&headers, f, TokenState::FindingUser, outcome)) {
            AppError::Unauthorized(m) => assert_eq!(m, "Invalid credentials"),
            e => panic!("{:?}", e),
        }
    }
}

#[test]
fn an_account_that_cannot_be_read_is_an_internal_error() {
    let headers = HeaderMap::new();
    let f = sign_in();
    let e = refused(go(&headers, &f, TokenState::FindingUser, Outcome::User(UserRow::Malformed)));
    assert!(matches!(e, AppError::Internal));
    let bind = Outcome::Failed(DbFailure::Bind("no".to_string()));
    let e = refused(go(&headers, &f, TokenState::FindingUser, bind));
    assert!(matches!(e, AppError::Worker(m) if m == "no"));
    let e = refused(go(&headers, &f, TokenState::FindingUser, Outcome::Done));
    assert!(matches!(e, AppError::Internal));
}

#[test]
fn the_right_password_leads_to_the_second_factor() {
    let headers = HeaderMap::new();
    let found = Outcome::User(UserRow::Found(user()));
    let (action, state) = performs(go(&headers, &sign_in(), TokenState::FindingUser, found));
    assert!(matches!(action, Action::AuthenticatorEnabled { user_id } if user_id == "user-1"));
    assert!(matches!(state, TokenState::CheckingTwoFactor { .. }));
}

// ---- without a second factor ----

#[test]
fn a_user_without_second_factor_is_sent_tokens() {
    let headers = HeaderMap::new();
    let state = TokenState::CheckingTwoFactor { user: user() };
    let reply = answered(go(&headers, &sign_in(), state, Outcome::Enabled(Ok(false))));
    assert_eq!(reply.status, 200);
    let body = value(&reply.body);
    assert_eq!(body.get("token_type"), Some(&Value::from("Bearer")));
    assert_eq!(body.get("expires_in"), Some(&Value::from(7200)));
    assert_eq!(body.get("TwoFactorToken"), None);
    let access = body.get("access_token").unwrap().as_str().unwrap();
    let refresh = body.get("refresh_token").unwrap().as_str().unwrap();
    let tail = "Path=/; HttpOnly; Secure; SameSite=Lax";
    assert_eq!(
        sent_cookies(&reply),
        vec![
            format!("bw_access_token={}; Max-Age=7200; {}", access, tail),
            format!("bw_refresh_token={}; Max-Age=2592000; {}", refresh, tail),
        ]
    );
}

#[test]
fn no_remember_token_is_given_without_second_factor() {
    let headers = HeaderMap::new();
    let mut f = from_device();
    f.two_factor_remember = Some(1);
    let state = TokenState::CheckingTwoFactor { user: user() };
    let (s, state) = asks(go(&headers, &f, state, Outcome::Enabled(Ok(false))));
    assert_eq!(s.sql, CREATE_DEVICES);
    let (_, state) = asks(go(&headers, &f, state, Outcome::Done));
    let (s, state) = asks(go(&headers, &f, state, Outcome::Done));
    assert_eq!(s.sql, SAVE_DEVICE);
    assert_eq!(params(&s)[5], "null");
    let reply = answered(go(&headers, &f, state, Outcome::Done));
    assert_eq!(value(&reply.body).get("TwoFactorToken"), None);
    assert_eq!(sent_cookies(&reply).len(), 2);
}

#[test]
fn whether_there_is_a_second_factor_has_to_be_known() {
    let headers = HeaderMap::new();
    let state = TokenState::CheckingTwoFactor { user: user() };
    let failed = Outcome::Enabled(Err(AppError::Database));
    assert!(matches!(refused(go(&headers, &sign_in(), state, failed)), AppError::Database));
    let state = TokenState::CheckingTwoFactor { user: user() };
    assert!(matches!(refused(go(&headers, &sign_in(), state, Outcome::Done)), AppError::Internal));
}

// ---- which second factor ----

fn with_factor(headers: &HeaderMap, f: &TokenRequest) -> Step<TokenState> {
    let state = TokenState::CheckingTwoFactor { user: user() };
    go(headers, f, state, Outcome::Enabled(Ok(true)))
}

fn is_asked_for(step: Step<TokenState>) {
    let reply = answered(step);
    assert_eq!(reply.status, 400);
    assert_eq!(
        value(&reply.body).get("error_description"),
        Some(&Value::from("Two factor required."))
    );
}

#[test]
fn a_request_without_second_factor_is_asked_for_one() {
    let none = HeaderMap::new();
    let remembering = cookies("twoFactorRemember=abc");
    is_asked_for(with_factor(&none, &sign_in()));
    is_asked_for(with_factor(&none, &from_device()));
    is_asked_for(with_factor(&remembering, &sign_in()));
    for (provider, code, device) in [
        (Some(5), None, true),
        (Some(5), Some("t"), false),
        (Some(0), None, true),
        (Some(1), Some("t"), true),
        (None, Some("t"), true),
    ] {
        let mut f = if device { from_device() } else { sign_in() };
        f.two_factor_provider = provider;
        f.two_factor_token = code.map(|s| s.to_string());
        is_asked_for(with_factor(&remembering, &f));
    }
}

#[test]
fn a_remembered_token_comes_in_either_cookie() {
    for raw in [
        "twoFactorRemember=abc",
        "TwoFactorRemember=abc",
        "x=1; TwoFactorRemember=late; twoFactorRemember= abc ",
    ] {
        let headers = cookies(raw);
        let f = from_device();
        let (s, state) = asks(with_factor(&headers, &f));
        assert_eq!(s.sql, CREATE_DEVICES);
        let (s, state) = asks(go(&headers, &f, state, Outcome::Done));
        assert_eq!(s.sql, ALTER_DEVICES);
        let (s, state) = asks(go(&headers, &f, state, Outcome::Failed(DbFailure::Run)));
        assert_eq!(s.sql, REMEMBERED_HASH);
        assert_eq!(params(&s), vec!["'user-1'", "'dev-1'"]);
        assert_eq!(s.fetch, Fetch::FirstRow);
        let (s, _) = asks(go(&headers, &f, state, hash_row(&sha256_hex("abc"))));
        assert_eq!(s.sql, CREATE_DEVICES);
    }
}

#[test]
fn a_remembered_token_that_is_not_the_devices_is_no_factor() {
    let headers = HeaderMap::new();
    let f = from_device();
    let checking = || TokenState::CheckingRemembered {
        user: user(),
        presented: "abc".to_string(),
        remember: false,
    };
    is_asked_for(go(&headers, &f, checking(), hash_row(&sha256_hex("abd"))));
    is_asked_for(go(&headers, &f, checking(), hash_row("abc")));
    is_asked_for(go(&headers, &f, checking(), Outcome::Row(None)));
    let null = Row { columns: vec![("remember_token_hash".to_string(), Cell::Null)] };
    is_asked_for(go(&headers, &f, checking(), Outcome::Row(Some(null))));
    let e = refused(go(&headers, &f, checking(), Outcome::Failed(DbFailure::Run)));
    assert!(matches!(e, AppError::Database));
    let bind = Outcome::Failed(DbFailure::Bind("no".to_string()));
    let e = refused(go(&headers, &f, checking(), bind));
    assert!(matches!(e, AppError::Worker(m) if m == "no"));
}

#[test]
fn a_table_that_cannot_be_made_fails_the_request() {
    let headers = cookies("twoFactorRemember=abc");
    let f = from_device();
    let (_, state) = asks(with_factor(&headers, &f));
    let e = refused(go(&headers, &f, state, Outcome::Failed(DbFailure::Run)));
    assert!(matches!(e, AppError::Database));
}

#[test]
fn a_remembered_token_in_the_form_gives_no_other() {
    let headers = HeaderMap::new();
    let mut f = from_device();
    f.two_factor_provider = Some(5);
    f.two_factor_token = Some(" abc\n".to_string());
    f.two_factor_remember = Some(1);
    let (_, state) = asks(with_factor(&headers, &f));
    let (_, state) = asks(go(&headers, &f, state, Outcome::Done));
    let (_, state) = asks(go(&headers, &f, state, Outcome::Done));
    let (_, state) = asks(go(&headers, &f, state, hash_row(&sha256_hex("abc"))));
    assert!(matches!(state, TokenState::PreparingDevice { remember_token: None, .. }));
}

#[test]
fn a_remembered_cookie_can_be_had_anew() {
    let headers = cookies("twoFactorRemember=abc");
    let mut f = from_device();
    f.two_factor_remember = Some(1);
    let (_, state) = asks(with_factor(&headers, &f));
    let (_, state) = asks(go(&headers, &f, state, Outcome::Done));
    let (_, state) = asks(go(&headers, &f, state, Outcome::Done));
    let (_, state) = asks(go(&headers, &f, state, hash_row(&sha256_hex("abc"))));
    assert!(matches!(state, TokenState::PreparingDevice { remember_token: Some(_), .. }));
}

// ---- codes ----

fn with_code() -> TokenRequest {
    let mut f = from_device();
    f.two_factor_provider = Some(0);
    f.two_factor_token = Some("123456".to_string());
    f
}

#[test]
fn a_code_is_verified_with_the_users_secret() {
    let headers = HeaderMap::new();
    let f = with_code();
    let (action, state) = performs(with_factor(&headers, &f));
    assert!(matches!(action, Action::AuthenticatorSecret { user_id } if user_id == "user-1"));
    let secret = Outcome::Secret(Ok(Some("stored".to_string())));
    let (action, state) = performs(go(&headers, &f, state, secret));
    match action {
        Action::VerifyTotp { key, user_id, secret_enc, code } => {
            assert_eq!(key, Some("enc".to_string()));
            assert_eq!(user_id, "user-1");
            assert_eq!(secret_enc, "stored");
            assert_eq!(code, "123456");
        },
        other => panic!("{:?}", other),
    }
    let (_, state) = performs(go(&headers, &f, state, Outcome::Totp(Ok(true))));
    assert!(matches!(state, TokenState::PreparingDevice { remember_token: None, .. }));
}

#[test]
fn a_wrong_code_is_refused() {
    let headers = HeaderMap::new();
    let state = TokenState::VerifyingCode { user: user() };
    let reply = answered(go(&headers, &with_code(), state, Outcome::Totp(Ok(false))));
    assert_eq!(reply.status, 400);
    assert_eq!(
        value(&reply.body).get("error_description"),
        Some(&Value::from("Invalid two factor token."))
    );
    let state = TokenState::VerifyingCode { user: user() };
    let failed = Outcome::Totp(Err(AppError::BadRequest("odd".to_string())));
    let e = refused(go(&headers, &with_code(), state, failed));
    assert!(matches!(e, AppError::BadRequest(m) if m == "odd"));
}

#[test]
fn a_secret_that_is_not_there_is_an_internal_error() {
    let headers = HeaderMap::new();
    let fetching = || TokenState::FetchingSecret { user: user(), code: "1".to_string() };
    let e = refused(go(&headers, &with_code(), fetching(), Outcome::Secret(Ok(None))));
    assert!(matches!(e, AppError::Internal));
    let failed = Outcome::Secret(Err(AppError::Database));
    let e = refused(go(&headers, &with_code(), fetching(), failed));
    assert!(matches!(e, AppError::Database));
}

#[test]
fn a_remember_token_needs_a_wish_and_a_device() {
    let headers = HeaderMap::new();
    for (wish, device, given) in [
        (Some(1), true, true),
        (Some(1), false, false),
        (Some(2), true, false),
        (Some(0), true, false),
        (None, true, false),
    ] {
        let mut f = with_code();
        f.two_factor_remember = wish;
        if !device {
            f.device_identifier = None;
        }
        let state = TokenState::VerifyingCode { user: user() };
        match decide(&headers, &f, &secrets(), state, Outcome::Totp(Ok(true))) {
            Decision::Grant { user, remember } => {
                assert_eq!(user.id, "user-1");
                assert_eq!(remember, given);
            },
            _ => panic!("no grant"),
        }
    }
}

// ---- what a grant sends ----

#[test]
fn a_remembered_device_is_given_its_token_and_signs_in_with_it() {
    let none = HeaderMap::new();
    let mut f = with_code();
    f.two_factor_remember = Some(1);
    let state = TokenState::VerifyingCode { user: user() };
    let (s, state) = asks(go(&none, &f, state, Outcome::Totp(Ok(true))));
    assert_eq!(s.sql, CREATE_DEVICES);
    let (s, state) = asks(go(&none, &f, state, Outcome::Done));
    assert_eq!(s.sql, ALTER_DEVICES);
    let (s, state) = asks(go(&none, &f, state, Outcome::Failed(DbFailure::Run)));
    assert_eq!(s.sql, SAVE_DEVICE);
    assert_eq!(s.fetch, Fetch::Nothing);
    let saved = params(&s);
    assert_eq!(saved.len(), 8);
    assert_eq!(&saved[1..5], &["'user-1'", "'dev-1'", "'web'", "#9"]);
    assert_eq!(saved[6], saved[7]);
    let reply = answered(go(&none, &f, state, Outcome::Done));
    let body = value(&reply.body);
    let given = body.get("TwoFactorToken").unwrap().as_str().unwrap().to_string();
    assert_eq!(saved[5], format!("'{}'", sha256_hex(&given)));
    let lines = sent_cookies(&reply);
    let tail = "Max-Age=2592000; Path=/; HttpOnly; Secure; SameSite=Lax";
    assert_eq!(lines.len(), 4);
    assert_eq!(lines[0], format!("twoFactorRemember={}; {}", given, tail));
    assert_eq!(lines[1], format!("TwoFactorRemember={}; {}", given, tail));
    assert!(lines[2].starts_with("bw_access_token="));
    assert!(lines[3].starts_with("bw_refresh_token="));

    let pairs: Vec<&str> = lines.iter().map(|l| l.split(';').next().unwrap()).collect();
    let mut headers = HeaderMap::new();
    headers.append("cookie", HeaderValue::from_str(&pairs.join("; ")).unwrap());
    let again = from_device();
    let (_, state) = asks(with_factor(&headers, &again));
    let (_, state) = asks(go(&headers, &again, state, Outcome::Done));
    let (_, state) = asks(go(&headers, &again, state, Outcome::Done));
    let (_, state) = asks(go(&headers, &again, state, hash_row(&sha256_hex(&given))));
    assert!(matches!(state, TokenState::PreparingDevice { .. }));
}

#[test]
fn a_device_is_noted_with_what_the_form_says() {
    let mut f = sign_in();
    f.device_identifier = Some("dev-1".to_string());
    let step = note_device(&f, "user-1", "dev-1", issued(), Some("t".to_string()), "row-1", &NOW);
    let (s, state) = asks(step);
    assert_eq!(
        params(&s),
        vec![
            "'row-1'".to_string(),
            "'user-1'".to_string(),
            "'dev-1'".to_string(),
            "null".to_string(),
            "null".to_string(),
            format!("'{}'", sha256_hex("t")),
            "'2023-11-14T22:13:20+00:00'".to_string(),
            "'2023-11-14T22:13:20+00:00'".to_string(),
        ]
    );
    assert!(matches!(state, TokenState::SavingDevice { remember_token: Some(t), .. } if t == "t"));
}

#[test]
fn a_device_that_cannot_be_noted_fails_the_request() {
    let headers = HeaderMap::new();
    let saving = || TokenState::SavingDevice { issued: issued(), remember_token: None };
    let f = from_device();
    let e = refused(go(&headers, &f, saving(), Outcome::Failed(DbFailure::Run)));
    assert!(matches!(e, AppError::Database));
    let bind = Outcome::Failed(DbFailure::Bind("no".to_string()));
    let e = refused(go(&headers, &f, saving(), bind));
    assert!(matches!(e, AppError::Worker(m) if m == "no"));
    assert!(matches!(refused(go(&headers, &f, saving(), Outcome::Row(None))), AppError::Internal));
}

#[test]
fn a_grant_needs_both_keys() {
    let mut keys = secrets();
    keys.jwt_refresh_secret = Err("no refresh".to_string());
    let e = refused(grant(&from_device(), &keys, &user(), None, &NOW));
    assert!(matches!(e, AppError::Worker(m) if m == "no refresh"));
    keys.jwt_secret = Err("no access".to_string());
    let e = refused(grant(&sign_in(), &keys, &user(), None, &NOW));
    assert!(matches!(e, AppError::Worker(m) if m == "no access"));
}

#[test]
fn cookies_go_out_in_order() {
    let all = vec![
        Cookie { name: "a", value: "1".to_string(), max_age_seconds: 1 },
        Cookie { name: "b", value: "2".to_string(), max_age_seconds: 2 },
    ];
    let reply = match answer_with_cookies(&all, Json::Null) {
        Ok(r) => r,
        Err(e) => panic!("{:?}", e),
    };
    assert_eq!(reply.status, 200);
    let tail = "Path=/; HttpOnly; Secure; SameSite=Lax";
    assert_eq!(
        sent_cookies(&reply),
        vec![format!("a=1; Max-Age=1; {}", tail), format!("b=2; Max-Age=2; {}", tail)]
    );
    let bad = vec![Cookie { name: "a", value: "\n".to_string(), max_age_seconds: 1 }];
    assert!(matches!(answer_with_cookies(&bad, Json::Null), Err(AppError::Internal)));
    assert!(matches!(answer_with_cookies(&Vec::new(), Json::Null), Ok(r) if r.headers.is_empty()));
}

#[test]
fn issued_tokens_are_sent() {
    let tokens = issued();
    let access = tokens.access_token.clone();
    let reply = match answer_with_tokens(tokens, Some("t".to_string())) {
        Ok(r) => r,
        Err(e) => panic!("{:?}", e),
    };
    let body = value(&reply.body);
    assert_eq!(body.get("TwoFactorToken"), Some(&Value::from("t")));
    assert_eq!(body.get("access_token"), Some(&Value::from(access.as_str())));
    assert_eq!(sent_cookies(&reply).len(), 4);
}

// ---- renewing ----

#[test]
fn a_refresh_token_is_renewed() {
    let headers = HeaderMap::new();
    let mut f = form("refresh_token");
    let fresh = match issue_tokens(&user(), &secrets(), &vault_identity::clock::current_time()) {
        Ok(i) => i,
        Err(e) => panic!("{:?}", e),
    };
    f.refresh_token = Some(fresh.refresh_token.clone());
    let (action, state) = performs(go(&headers, &f, TokenState::Start, Outcome::Done));
    let payload = match action {
        Action::ReadClaims { payload } => payload,
        other => panic!("{:?}", other),
    };
    let read: Value = serde_json::from_str(&payload).unwrap();
    assert_eq!(read.get("sub"), Some(&Value::from("user-1")));
    let claims = Claims {
        sub: read.get("sub").unwrap().as_str().unwrap().to_string(),
        exp: 0,
        nbf: 0,
        premium: true,
        name: "User".to_string(),
        email: "alice@example.com".to_string(),
        email_verified: true,
        amr: Vec::new(),
    };
    let (s, state) = asks(go(&headers, &f, state, Outcome::Claims(Some(claims))));
    assert_eq!(s.sql, USER_BY_ID);
    assert_eq!(params(&s), vec!["'user-1'"]);
    assert_eq!(s.fetch, Fetch::FirstUser);
    let reply = answered(go(&headers, &f, state, Outcome::User(UserRow::Found(user()))));
    assert_eq!(reply.status, 200);
    assert_eq!(sent_cookies(&reply).len(), 2);
    assert_eq!(value(&reply.body).get("TwoFactorToken"), None);
}

#[test]
fn a_refresh_token_may_come_in_its_cookie() {
    let fresh = match issue_tokens(&user(), &secrets(), &vault_identity::clock::current_time()) {
        Ok(i) => i,
        Err(e) => panic!("{:?}", e),
    };
    let mut headers = HeaderMap::new();
    let raw = format!("x=1; bw_refresh_token={}", fresh.refresh_token);
    headers.append("cookie", HeaderValue::from_str(&raw).unwrap());
    let (action, _) =
        performs(go(&headers, &form("refresh_token"), TokenState::Start, Outcome::Done));
    assert!(matches!(action, Action::ReadClaims { .. }));
    let mut f = form("refresh_token");
    f.refresh_token = Some("bad".to_string());
    let e = refused(go(&headers, &f, TokenState::Start, Outcome::Done));
    assert!(matches!(e, AppError::Unauthorized(_)));
}

#[test]
fn a_refresh_token_that_is_no_good_is_refused() {
    let headers = HeaderMap::new();
    let mut f = form("refresh_token");
    for t in ["".to_string(), "a.b.c".to_string(), issued().refresh_token, issued().access_token] {
        f.refresh_token = Some(t);
        match refused(go(&headers, &f, TokenState::Start, Outcome::Done)) {
            AppError::Unauthorized(m) => assert_eq!(m, "Invalid refresh token"),
            e => panic!("{:?}", e),
        }
    }
    let e = refused(go(&headers, &f, TokenState::ReadingClaims, Outcome::Claims(None)));
    assert!(matches!(e, AppError::Unauthorized(m) if m == "Invalid refresh token"));
    assert!(matches!(refresh(None), Step::Answer(Err(AppError::Unauthorized(_)))));
}

#[test]
fn a_refresh_key_that_is_not_there_is_missed() {
    let headers = HeaderMap::new();
    let mut f = form("refresh_token");
    f.refresh_token = Some("t".to_string());
    let mut keys = secrets();
    keys.jwt_refresh_secret = Err("none".to_string());
    let e = refused(token(&headers, &f, &keys, TokenState::Start, Outcome::Done));
    assert!(matches!(e, AppError::Worker(m) if m == "none"));
}

#[test]
fn a_user_that_is_gone_is_refused() {
    let headers = HeaderMap::new();
    let f = form("refresh_token");
    for outcome in [Outcome::User(UserRow::Missing), Outcome::Failed(DbFailure::Run)] {
        match refused(go(&headers, &f, TokenState::FindingRefreshUser, outcome)) {
            AppError::Unauthorized(m) => assert_eq!(m, "Invalid user"),
            e => panic!("{:?}", e),
        }
    }
    let malformed = Outcome::User(UserRow::Malformed);
    let e = refused(go(&headers, &f, TokenState::FindingRefreshUser, malformed));
    assert!(matches!(e, AppError::Internal));
    let bind = Outcome::Failed(DbFailure::Bind("no".to_string()));
    let e = refused(go(&headers, &f, TokenState::FindingRefreshUser, bind));
    assert!(matches!(e, AppError::Worker(m) if m == "no"));
}

#[test]
fn a_renewal_needs_both_keys() {
    let mut keys = secrets();
    assert!(renew(&keys, &user(), &NOW).is_ok());
    keys.jwt_secret = Err("no access".to_string());
    let r = renew(&keys, &user(), &NOW);
    assert!(matches!(r, Err(AppError::Worker(m)) if m == "no access"));
}

#[test]
fn a_refresh_token_that_was_sent_renews_its_account() {
    let none = HeaderMap::new();
    let state = TokenState::CheckingTwoFactor { user: user() };
    let first = answered(go(&none, &sign_in(), state, Outcome::Enabled(Ok(false))));
    let sent = value(&first.body).get("refresh_token").unwrap().as_str().unwrap().to_string();

    let mut in_form = form("refresh_token");
    in_form.refresh_token = Some(sent.clone());
    let lines = sent_cookies(&first);
    let pairs: Vec<&str> = lines.iter().map(|l| l.split(';').next().unwrap()).collect();
    let mut in_cookie = HeaderMap::new();
    in_cookie.append("cookie", HeaderValue::from_str(&pairs.join("; ")).unwrap());

    for (headers, f) in [(&none, &in_form), (&in_cookie, &form("refresh_token"))] {
        let (action, state) = performs(go(headers, f, TokenState::Start, Outcome::Done));
        let payload = match action {
            Action::ReadClaims { payload } => payload,
            other => panic!("{:?}", other),
        };
        let read: Value = serde_json::from_str(&payload).unwrap();
        let claims = Claims {
            sub: read.get("sub").unwrap().as_str().unwrap().to_string(),
            exp: read.get("exp").unwrap().as_u64().unwrap() as usize,
            nbf: read.get("nbf").unwrap().as_u64().unwrap() as usize,
            premium: true,
            name: "User".to_string(),
            email: "alice@example.com".to_string(),
            email_verified: true,
            amr: vec!["Application".to_string()],
        };
        let (s, state) = asks(go(headers, f, state, Outcome::Claims(Some(claims))));
        assert_eq!(s.sql, USER_BY_ID);
        assert_eq!(params(&s), vec!["'user-1'"]);
        let reply = answered(go(headers, f, state, Outcome::User(UserRow::Found(user()))));
        assert_eq!(reply.status, 200);
        let body = value(&reply.body);
        assert_eq!(body.get("TwoFactorToken"), None);
        let access = body.get("access_token").unwrap().as_str().unwrap();
        let key = jsonwebtoken::DecodingKey::from_secret(b"access");
        let validation = jsonwebtoken::Validation::default();
        let decoded = jsonwebtoken::decode::<Value>(access, &key, &validation).unwrap();
        assert_eq!(decoded.claims.get("sub"), Some(&Value::from("user-1")));
    }
}

#[test]
fn a_device_that_signs_in_is_saved_under_its_account() {
    let none = HeaderMap::new();
    let f = from_device();
    let state = TokenState::CheckingTwoFactor { user: user() };
    let (_, state) = asks(go(&none, &f, state, Outcome::Enabled(Ok(false))));
    let (_, state) = asks(go(&none, &f, state, Outcome::Done));
    let (s, _) = asks(go(&none, &f, state, Outcome::Done));
    assert_eq!(s.sql, SAVE_DEVICE);
    assert_eq!(&params(&s)[1..3], &["'user-1'", "'dev-1'"]);
}

#[test]
fn what_is_decided_is_carried_out() {
    let granted = Decision::Grant { user: user(), remember: false };
    assert_eq!(answered(carry_out(&sign_in(), &secrets(), granted)).status, 200);
    let renewal = Decision::Renew { user: user() };
    assert_eq!(answered(carry_out(&form("refresh_token"), &secrets(), renewal)).status, 200);
    let bad = Decision::Refresh { token: "x".to_string(), secret: "refresh".to_string() };
    let e = refused(carry_out(&form("refresh_token"), &secrets(), bad));
    assert!(matches!(e, AppError::Unauthorized(_)));
}
