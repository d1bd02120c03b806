//! Signing in: the token endpoint.
use vstd::prelude::*;
use vstd::utf8::encode_utf8;
use axum::http::HeaderMap;
use crate::clock::{current_time, Timestamp, ACCESS_SECONDS, REFRESH_SECONDS};
use crate::codec::{
    generate_remember_token, is_remember_token, law_remember_token_is_plain, lowercase, new_row_id, random_uuid, same_secret,
    sha256_hex, sha256_hex_of,
};
use crate::devices::first_of;
use crate::error::{bad_request, unauthorized, AppError, Failure};
use crate::flow::{
    create_devices, create_devices_statement, database_error, document_reply, document_response,
    ensure_devices_table, failure_of, table_move, AccountRow, Action, DbFailure, Event, Move,
    Outcome, QueryFailure, Reply, Response, Step, TableMove, TableStage, TableStep, UserRow, Work,
};
use crate::headers::{
    cookie_line, get_cookie, has_room, header_values, law_printable_cookie_is_sendable, no_headers,
    printable, request_cookie, sendable, set_cookie, with_set_cookie,
};
use crate::json::{no_members, Document, Json, Members};
use crate::request::{text_view, TokenForm, TokenRequest};
use crate::sql::{
    js_opt_i64, js_opt_string, optional_integer, optional_text, query, text_in, Bound, Fetch,
    Query, Statement,
};
use crate::text::{decimal, decimal_text, same_text, trim, trimmed};
use crate::tokens::{
    empty_policy, empty_policy_json, is_token, issue_tokens, issues_well, refresh_payload, token_char, tokens_for,
    verified_payload, Account, Issue, IssuedTokens, Keys, Secrets, User,
};

verus! {

broadcast use vstd::string::group_string_axioms;

/// The second factor that is an authenticator's code.
pub const TWO_FACTOR_PROVIDER_AUTHENTICATOR: i32 = 0;

/// The second factor that is a token which a device was given to remember.
pub const TWO_FACTOR_PROVIDER_REMEMBER: i32 = 5;

/// The account with this address.
pub const USER_BY_EMAIL: &'static str = "SELECT * FROM users WHERE email = ?1";

/// The account with this identifier.
pub const USER_BY_ID: &'static str = "SELECT * FROM users WHERE id = ?1";

/// The digest of the token that a device was given to remember.
pub const REMEMBERED_HASH: &'static str =
    "SELECT remember_token_hash FROM devices WHERE user_id = ?1 AND device_identifier = ?2";

/// Notes that a device signed in: a new row, or the row that is there with a new time and with what
/// is new of its name, its type and the token that it remembers.
pub const SAVE_DEVICE: &'static str =
    "INSERT INTO devices (id, user_id, device_identifier, device_name, device_type, remember_token_hash, created_at, updated_at)
                     VALUES (?1, ?2, ?3, ?4, ?5, ?6, ?7, ?8)
                     ON CONFLICT(user_id, device_identifier) DO UPDATE SET
                       updated_at = excluded.updated_at,
                       device_name = COALESCE(excluded.device_name, devices.device_name),
                       device_type = COALESCE(excluded.device_type, devices.device_type),
                       remember_token_hash = COALESCE(excluded.remember_token_hash, devices.remember_token_hash)";

// ---- refusals ----

/// What a client is told that has to show a second factor.
pub open spec fn two_factor_refusal(description: Seq<char>) -> Document {
    Document::Object(
        no_members().push(
            (
                "TwoFactorProviders"@,
                Document::Array(
                    seq![Document::Text(decimal(TWO_FACTOR_PROVIDER_AUTHENTICATOR as int))],
                ),
            ),
        ).push(
            ("TwoFactorProviders2"@, Document::Object(no_members().push(("0"@, Document::Null)))),
        ).push(("MasterPasswordPolicy"@, empty_policy())).push(
            ("error"@, Document::Text("invalid_grant"@)),
        ).push(("error_description"@, Document::Text(description))),
    )
}

/// The answer where a second factor is needed.
pub open spec fn two_factor_required() -> Response {
    document_response(400, two_factor_refusal("Two factor required."@))
}

/// The answer where the code is wrong.
pub open spec fn invalid_two_factor() -> Response {
    document_response(400, two_factor_refusal("Invalid two factor token."@))
}

fn two_factor_refusal_json(description: &str) -> (json: Json)
    ensures
        json@ == two_factor_refusal(description@),
{
    let provider = Json::Text(decimal_text(TWO_FACTOR_PROVIDER_AUTHENTICATOR as i64));
    Members::new().with("TwoFactorProviders", Json::array_of_one(provider)).with(
        "TwoFactorProviders2",
        Members::new().with("0", Json::Null).object(),
    ).with("MasterPasswordPolicy", empty_policy_json()).with("error", Json::text("invalid_grant")).with(
        "error_description",
        Json::text(description),
    ).object()
}

/// Answers that a second factor is needed.
pub fn two_factor_required_response() -> (reply: Reply)
    ensures
        reply@ == two_factor_required(),
{
    document_reply(400, two_factor_refusal_json("Two factor required."))
}

/// Answers that the code is wrong.
pub fn invalid_two_factor_response() -> (reply: Reply)
    ensures
        reply@ == invalid_two_factor(),
{
    document_reply(400, two_factor_refusal_json("Invalid two factor token."))
}

// ---- the reply with tokens ----

/// A cookie that is to be sent.
#[derive(Debug)]
pub struct Cookie {
    pub name: &'static str,
    pub value: String,
    pub max_age_seconds: i64,
}

impl Cookie {
    /// The cookie as it is sent.
    pub open spec fn line(self) -> Seq<char> {
        cookie_line(self.name@, self.value@, self.max_age_seconds as int)
    }
}

/// The header fields of cookies alone.
pub open spec fn cookie_headers(lines: Seq<Seq<char>>) -> Map<Seq<char>, Seq<Seq<u8>>> {
    if lines.len() == 0 {
        Map::empty()
    } else {
        Map::empty().insert("set-cookie"@, lines.map_values(|l: Seq<char>| encode_utf8(l)))
    }
}

proof fn lemma_one_more_cookie(lines: Seq<Seq<char>>, line: Seq<char>)
    ensures
        with_set_cookie(cookie_headers(lines), encode_utf8(line)) == cookie_headers(
            lines.push(line),
        ),
        has_room(cookie_headers(lines)),
{
    let next = cookie_headers(lines.push(line));
    assert(lines.push(line).map_values(|l: Seq<char>| encode_utf8(l)) =~= lines.map_values(
        |l: Seq<char>| encode_utf8(l),
    ).push(encode_utf8(line)));
    if lines.len() == 0 {
        assert(lines.map_values(|l: Seq<char>| encode_utf8(l)) =~= Seq::<Seq<u8>>::empty());
    }
    assert(with_set_cookie(cookie_headers(lines), encode_utf8(line)) =~= next);
}

/// The answer with `body` that sends `lines`: it fails where a header value cannot hold one.
pub open spec fn cookie_answer(lines: Seq<Seq<char>>, body: Document) -> Result<Response, Failure> {
    if forall|i: int| 0 <= i < lines.len() ==> sendable(#[trigger] lines[i]) {
        Ok(Response { status: 200, headers: cookie_headers(lines), body })
    } else {
        Err(Failure::Internal)
    }
}

/// An answer against the one that is meant.
pub open spec fn answers(r: Result<Reply, AppError>, meant: Result<Response, Failure>) -> bool {
    match (r, meant) {
        (Ok(reply), Ok(response)) => reply@ == response,
        (Err(e), Err(f)) => e@ == f,
        _ => false,
    }
}

/// Answers with `body` and sends `cookies`.
pub fn answer_with_cookies(cookies: &Vec<Cookie>, body: Json) -> (r: Result<Reply, AppError>)
    ensures
        answers(r, cookie_answer(cookies@.map_values(|c: Cookie| c.line()), body@)),
{
    let ghost lines = cookies@.map_values(|c: Cookie| c.line());
    let mut headers = no_headers();
    let mut i: usize = 0;
    proof {
        assert(lines.take(0) =~= Seq::<Seq<char>>::empty());
    }
    while i < cookies.len()
        invariant
            i <= cookies.len(),
            lines == cookies@.map_values(|c: Cookie| c.line()),
            header_values(headers) == cookie_headers(lines.take(i as int)),
            forall|j: int| 0 <= j < i ==> sendable(#[trigger] lines[j]),
        decreases cookies.len() - i,
    {
        proof {
            lemma_one_more_cookie(lines.take(i as int), lines[i as int]);
            assert(lines.take(i + 1) =~= lines.take(i as int).push(lines[i as int]));
        }
        let cookie = &cookies[i];
        match set_cookie(&mut headers, cookie.name, cookie.value.as_str(), cookie.max_age_seconds) {
            Ok(_) => {},
            Err(e) => {
                assert(!sendable(lines[i as int]));
                return Err(e);
            },
        }
        i = i + 1;
    }
    assert(lines.take(i as int) =~= lines);
    Ok(Reply { status: 200, headers, body })
}

/// The cookies that go with issued tokens: the remember token, under both spellings of its name,
/// then the two tokens, each for as long as what it holds is good.
pub open spec fn token_cookies(issue: Issue, remember_token: Option<Seq<char>>) -> Seq<Seq<char>> {
    let remembered = match remember_token {
        Some(t) => Seq::empty().push(
            cookie_line("twoFactorRemember"@, t, REFRESH_SECONDS as int),
        ).push(cookie_line("TwoFactorRemember"@, t, REFRESH_SECONDS as int)),
        None => Seq::empty(),
    };
    remembered.push(
        cookie_line("bw_access_token"@, issue.access_token, ACCESS_SECONDS as int),
    ).push(cookie_line("bw_refresh_token"@, issue.refresh_token, REFRESH_SECONDS as int))
}

/// What the client is told: what goes with the tokens, and the remember token where there is one.
pub open spec fn token_body(issue: Issue, remember_token: Option<Seq<char>>) -> Document {
    Document::Object(
        match remember_token {
            Some(t) => issue.response.push(("TwoFactorToken"@, Document::Text(t))),
            None => issue.response,
        },
    )
}

/// The answer with issued tokens.
pub open spec fn token_answer(issue: Issue, remember_token: Option<Seq<char>>) -> Result<
    Response,
    Failure,
> {
    cookie_answer(token_cookies(issue, remember_token), token_body(issue, remember_token))
}

/// Answers with issued tokens.
pub fn answer_with_tokens(issued: IssuedTokens, remember_token: Option<String>) -> (r: Result<
    Reply,
    AppError,
>)
    ensures
        answers(r, token_answer(issued@, text_view(remember_token))),
{
    let ghost issue = issued@;
    let mut cookies: Vec<Cookie> = Vec::new();
    let mut response = issued.response;
    let ghost remembered = text_view(remember_token);
    match remember_token {
        Some(token) => {
            response = response.with("TwoFactorToken", Json::text(token.as_str()));
            cookies.push(
                Cookie {
                    name: "twoFactorRemember",
                    value: token.clone(),
                    max_age_seconds: REFRESH_SECONDS,
                },
            );
            cookies.push(
                Cookie {
                    name: "TwoFactorRemember",
                    value: token,
                    max_age_seconds: REFRESH_SECONDS,
                },
            );
        },
        None => {},
    }
    cookies.push(
        Cookie {
            name: "bw_access_token",
            value: issued.access_token,
            max_age_seconds: ACCESS_SECONDS,
        },
    );
    cookies.push(
        Cookie {
            name: "bw_refresh_token",
            value: issued.refresh_token,
            max_age_seconds: REFRESH_SECONDS,
        },
    );
    assert(cookies@.map_values(|c: Cookie| c.line()) =~= token_cookies(issue, remembered));
    answer_with_cookies(&cookies, response.object())
}

// ---- the token endpoint ----

/// Where a request for tokens stands.
pub enum TokenState {
    Start,
    /// The account is being looked up by its address.
    FindingUser,
    /// The password was right; does the user sign in with a second factor?
    CheckingTwoFactor { user: User },
    /// The second factor is a remembered token; the table of devices is being made.
    PreparingRemembered {
        user: User,
        device_identifier: String,
        presented: String,
        remember: bool,
        table: TableStage,
    },
    /// The second factor is a remembered token; what the device was given is being looked up.
    CheckingRemembered { user: User, presented: String, remember: bool },
    /// The second factor is a code; the authenticator's secret is being looked up.
    FetchingSecret { user: User, code: String },
    /// The second factor is a code, which is being verified.
    VerifyingCode { user: User },
    /// Tokens have been issued; the table of devices is being made.
    PreparingDevice {
        user_id: String,
        device_identifier: String,
        issued: IssuedTokens,
        remember_token: Option<String>,
        table: TableStage,
    },
    /// Tokens have been issued; the device is being noted.
    SavingDevice { issued: IssuedTokens, remember_token: Option<String> },
    /// The refresh token is good; its claims are being read.
    ReadingClaims,
    /// The account is being looked up by its identifier.
    FindingRefreshUser,
}

/// Where a request for tokens stands, as a value.
#[verifier::ext_equal]
pub enum TokenStage {
    Start,
    FindingUser,
    CheckingTwoFactor { user: Account },
    PreparingRemembered {
        user: Account,
        device_identifier: Seq<char>,
        presented: Seq<char>,
        remember: bool,
        table: TableStage,
    },
    CheckingRemembered { user: Account, presented: Seq<char>, remember: bool },
    FetchingSecret { user: Account, code: Seq<char> },
    VerifyingCode { user: Account },
    PreparingDevice {
        user_id: Seq<char>,
        device_identifier: Seq<char>,
        issue: Issue,
        remember_token: Option<Seq<char>>,
        table: TableStage,
    },
    SavingDevice { issue: Issue, remember_token: Option<Seq<char>> },
    ReadingClaims,
    FindingRefreshUser,
}

impl View for TokenState {
    type V = TokenStage;

    open spec fn view(&self) -> TokenStage {
        match self {
            TokenState::Start => TokenStage::Start,
            TokenState::FindingUser => TokenStage::FindingUser,
            TokenState::CheckingTwoFactor { user } => TokenStage::CheckingTwoFactor {
                user: user@,
            },
            TokenState::PreparingRemembered {
                user,
                device_identifier,
                presented,
                remember,
                table,
            } => TokenStage::PreparingRemembered {
                user: user@,
                device_identifier: device_identifier@,
                presented: presented@,
                remember: *remember,
                table: *table,
            },
            TokenState::CheckingRemembered { user, presented, remember } =>
                TokenStage::CheckingRemembered {
                user: user@,
                presented: presented@,
                remember: *remember,
            },
            TokenState::FetchingSecret { user, code } => TokenStage::FetchingSecret {
                user: user@,
                code: code@,
            },
            TokenState::VerifyingCode { user } => TokenStage::VerifyingCode { user: user@ },
            TokenState::PreparingDevice {
                user_id,
                device_identifier,
                issued,
                remember_token,
                table,
            } => TokenStage::PreparingDevice {
                user_id: user_id@,
                device_identifier: device_identifier@,
                issue: issued@,
                remember_token: text_view(*remember_token),
                table: *table,
            },
            TokenState::SavingDevice { issued, remember_token } => TokenStage::SavingDevice {
                issue: issued@,
                remember_token: text_view(*remember_token),
            },
            TokenState::ReadingClaims => TokenStage::ReadingClaims,
            TokenState::FindingRefreshUser => TokenStage::FindingRefreshUser,
        }
    }
}

/// Whether cookies can carry what is to be sent.
pub open spec fn deliverable(issue: Issue, remember_token: Option<Seq<char>>) -> bool {
    &&& is_token(issue.access_token)
    &&& is_token(issue.refresh_token)
    &&& remember_token matches Some(t) ==> is_remember_token(t)
}

impl TokenStage {
    /// Tokens that wait to be sent can be sent.
    pub open spec fn well_formed(self) -> bool {
        match self {
            TokenStage::PreparingDevice { issue, remember_token, .. } => deliverable(
                issue,
                remember_token,
            ),
            TokenStage::SavingDevice { issue, remember_token } => deliverable(
                issue,
                remember_token,
            ),
            _ => true,
        }
    }
}

/// What is decided.
pub enum Decision {
    /// What to do next, with nothing to be drawn for it.
    Next(Step<TokenState>),
    /// The user has shown who they are: tokens are issued, and a remember token if it is wanted.
    Grant { user: User, remember: bool },
    /// The device is noted.
    Note {
        user_id: String,
        device_identifier: String,
        issued: IssuedTokens,
        remember_token: Option<String>,
    },
    /// The refresh token is to be verified.
    Refresh { token: String, secret: String },
    /// The refresh token was good: tokens are issued.
    Renew { user: User },
}

/// What is decided, as a value.
#[verifier::ext_equal]
pub enum Verdict {
    Next(Move<TokenStage>),
    Grant { user: Account, remember: bool },
    Note {
        user_id: Seq<char>,
        device_identifier: Seq<char>,
        issue: Issue,
        remember_token: Option<Seq<char>>,
    },
    Refresh { token: Seq<char>, secret: Seq<char> },
    Renew { user: Account },
}

impl View for Decision {
    type V = Verdict;

    open spec fn view(&self) -> Verdict {
        match self {
            Decision::Next(step) => Verdict::Next(step@),
            Decision::Grant { user, remember } => Verdict::Grant {
                user: user@,
                remember: *remember,
            },
            Decision::Note { user_id, device_identifier, issued, remember_token } => Verdict::Note {
                user_id: user_id@,
                device_identifier: device_identifier@,
                issue: issued@,
                remember_token: text_view(*remember_token),
            },
            Decision::Refresh { token, secret } => Verdict::Refresh {
                token: token@,
                secret: secret@,
            },
            Decision::Renew { user } => Verdict::Renew { user: user@ },
        }
    }
}

/// The request is refused.
pub open spec fn refused(failure: Failure) -> Verdict {
    Verdict::Next(Move::Answer(Err(failure)))
}

/// Something is asked for.
pub open spec fn asked(work: Work, stage: TokenStage) -> Verdict {
    Verdict::Next(Move::Perform(work, stage))
}

fn refuse(e: AppError) -> (d: Decision)
    ensures
        d@ == refused(e@),
{
    Decision::Next(Step::Answer(Err(e)))
}

fn ask(action: Action, state: TokenState) -> (d: Decision)
    ensures
        d@ == asked(action@, state@),
{
    Decision::Next(Step::Perform(action, state))
}

/// Whether the client wants a remember token.
pub open spec fn wants_remember(form: TokenForm) -> bool {
    form.two_factor_remember == Some(1i32)
}

/// The second factor that a request shows.
#[verifier::ext_equal]
pub enum Factor {
    /// A token that the device was given to remember.
    Remembered { device_identifier: Seq<char>, presented: Seq<char>, remember: bool },
    /// A code of an authenticator.
    Code(Seq<char>),
    /// None.
    Missing,
}

/// The token that a device keeps in a cookie, under either spelling of its name.
pub open spec fn remembered_cookie(headers: Map<Seq<char>, Seq<Seq<u8>>>) -> Option<Seq<char>> {
    first_of(
        request_cookie(headers, "twoFactorRemember"@),
        request_cookie(headers, "TwoFactorRemember"@),
    )
}

/// The second factor that a request shows. Where the form says nothing of one, it is the cookie of
/// a device that says which it is. A token to remember can be had anew with it, not with one that
/// the form brings.
pub open spec fn factor_of(headers: Map<Seq<char>, Seq<Seq<u8>>>, form: TokenForm) -> Factor {
    if form.two_factor_provider is None && form.two_factor_token is None {
        match (form.device_identifier, remembered_cookie(headers)) {
            (Some(device), Some(cookie)) => Factor::Remembered {
                device_identifier: device,
                presented: cookie,
                remember: wants_remember(form),
            },
            _ => Factor::Missing,
        }
    } else if form.two_factor_provider == Some(TWO_FACTOR_PROVIDER_REMEMBER) {
        match (form.device_identifier, form.two_factor_token) {
            (Some(device), Some(token)) => Factor::Remembered {
                device_identifier: device,
                presented: token,
                remember: false,
            },
            _ => Factor::Missing,
        }
    } else if form.two_factor_provider == Some(TWO_FACTOR_PROVIDER_AUTHENTICATOR) {
        match form.two_factor_token {
            Some(code) => Factor::Code(code),
            None => Factor::Missing,
        }
    } else {
        Factor::Missing
    }
}

/// What is decided of a request for tokens that stands at `stage`, when it is told `event`.
pub open spec fn token_decision(
    headers: Map<Seq<char>, Seq<Seq<u8>>>,
    form: TokenForm,
    keys: Keys,
    stage: TokenStage,
    event: Event,
) -> Verdict {
    match stage {
        TokenStage::Start => if form.grant_type == "password"@ {
            match (form.username, form.password) {
                (None, _) => refused(Failure::BadRequest("Missing username"@)),
                (Some(_), None) => refused(Failure::BadRequest("Missing password"@)),
                (Some(username), Some(_)) => asked(
                    Work::Query(
                        query(USER_BY_EMAIL@, Fetch::FirstUser).bind(
                            Bound::Text(lowercase(username)),
                        ),
                    ),
                    TokenStage::FindingUser,
                ),
            }
        } else if form.grant_type == "refresh_token"@ {
            match first_of(form.refresh_token, request_cookie(headers, "bw_refresh_token"@)) {
                None => refused(Failure::BadRequest("Missing refresh_token"@)),
                Some(token) => match keys.jwt_refresh_secret {
                    Err(m) => refused(Failure::Worker(m)),
                    Ok(secret) => Verdict::Refresh { token, secret },
                },
            }
        } else {
            refused(Failure::BadRequest("Unsupported grant_type"@))
        },
        TokenStage::FindingUser => match event {
            Event::Failed(QueryFailure::Bind(m)) => refused(Failure::Worker(m)),
            Event::Failed(_) => refused(Failure::Unauthorized("Invalid credentials"@)),
            Event::User(AccountRow::Missing) => refused(
                Failure::Unauthorized("Invalid credentials"@),
            ),
            Event::User(AccountRow::Malformed) => refused(Failure::Internal),
            Event::User(AccountRow::Found(user)) => if form.password == Some(
                user.master_password_hash,
            ) {
                asked(
                    Work::AuthenticatorEnabled { user_id: user.id },
                    TokenStage::CheckingTwoFactor { user },
                )
            } else {
                refused(Failure::Unauthorized("Invalid credentials"@))
            },
            _ => refused(Failure::Internal),
        },
        TokenStage::CheckingTwoFactor { user } => match event {
            Event::Enabled(Err(f)) => refused(f),
            Event::Enabled(Ok(false)) => Verdict::Grant { user, remember: false },
            Event::Enabled(Ok(true)) => match factor_of(headers, form) {
                Factor::Missing => Verdict::Next(Move::Answer(Ok(two_factor_required()))),
                Factor::Remembered { device_identifier, presented, remember } => asked(
                    Work::Query(create_devices()),
                    TokenStage::PreparingRemembered {
                        user,
                        device_identifier,
                        presented,
                        remember,
                        table: TableStage::Create,
                    },
                ),
                Factor::Code(code) => asked(
                    Work::AuthenticatorSecret { user_id: user.id },
                    TokenStage::FetchingSecret { user, code },
                ),
            },
            _ => refused(Failure::Internal),
        },
        TokenStage::PreparingRemembered {
            user,
            device_identifier,
            presented,
            remember,
            table,
        } => match table_move(table, event) {
            TableMove::Run(q, next) => asked(
                Work::Query(q),
                TokenStage::PreparingRemembered {
                    user,
                    device_identifier,
                    presented,
                    remember,
                    table: next,
                },
            ),
            TableMove::Failed(f) => refused(f),
            TableMove::Ready => asked(
                Work::Query(
                    query(REMEMBERED_HASH@, Fetch::FirstRow).bind(Bound::Text(user.id)).bind(
                        Bound::Text(device_identifier),
                    ),
                ),
                TokenStage::CheckingRemembered { user, presented, remember },
            ),
        },
        TokenStage::CheckingRemembered { user, presented, remember } => match event {
            Event::Failed(f) => refused(failure_of(f)),
            Event::Row(row) => if row matches Some(r) && text_in(r, "remember_token_hash"@) == Some(
                sha256_hex_of(trimmed(presented)),
            ) {
                Verdict::Grant { user, remember }
            } else {
                Verdict::Next(Move::Answer(Ok(two_factor_required())))
            },
            _ => refused(Failure::Internal),
        },
        TokenStage::FetchingSecret { user, code } => match event {
            Event::Secret(Err(f)) => refused(f),
            Event::Secret(Ok(Some(secret_enc))) => asked(
                Work::VerifyTotp {
                    key: keys.two_factor_enc_key,
                    user_id: user.id,
                    secret_enc,
                    code,
                },
                TokenStage::VerifyingCode { user },
            ),
            _ => refused(Failure::Internal),
        },
        TokenStage::VerifyingCode { user } => match event {
            Event::Totp(Err(f)) => refused(f),
            Event::Totp(Ok(false)) => Verdict::Next(Move::Answer(Ok(invalid_two_factor()))),
            Event::Totp(Ok(true)) => Verdict::Grant {
                user,
                remember: wants_remember(form) && form.device_identifier is Some,
            },
            _ => refused(Failure::Internal),
        },
        TokenStage::PreparingDevice {
            user_id,
            device_identifier,
            issue,
            remember_token,
            table,
        } => match table_move(table, event) {
            TableMove::Run(q, next) => asked(
                Work::Query(q),
                TokenStage::PreparingDevice {
                    user_id,
                    device_identifier,
                    issue,
                    remember_token,
                    table: next,
                },
            ),
            TableMove::Failed(f) => refused(f),
            TableMove::Ready => Verdict::Note { user_id, device_identifier, issue, remember_token },
        },
        TokenStage::SavingDevice { issue, remember_token } => match event {
            Event::Failed(f) => refused(failure_of(f)),
            Event::Done => Verdict::Next(Move::Answer(token_answer(issue, remember_token))),
            _ => refused(Failure::Internal),
        },
        TokenStage::ReadingClaims => match event {
            Event::Claims(None) => refused(Failure::Unauthorized("Invalid refresh token"@)),
            Event::Claims(Some(claims)) => asked(
                Work::Query(query(USER_BY_ID@, Fetch::FirstUser).bind(Bound::Text(claims.sub))),
                TokenStage::FindingRefreshUser,
            ),
            _ => refused(Failure::Internal),
        },
        TokenStage::FindingRefreshUser => match event {
            Event::Failed(QueryFailure::Bind(m)) => refused(Failure::Worker(m)),
            Event::Failed(_) => refused(Failure::Unauthorized("Invalid user"@)),
            Event::User(AccountRow::Missing) => refused(Failure::Unauthorized("Invalid user"@)),
            Event::User(AccountRow::Found(user)) => Verdict::Renew { user },
            _ => refused(Failure::Internal),
        },
    }
}

fn first_text(a: Option<String>, b: Option<String>) -> (r: Option<String>)
    ensures
        text_view(r) == first_of(text_view(a), text_view(b)),
{
    match a {
        Some(s) => Some(s),
        None => b,
    }
}

fn clone_text(t: &Option<String>) -> (r: Option<String>)
    ensures
        text_view(r) == text_view(*t),
{
    match t {
        Some(s) => Some(s.clone()),
        None => None,
    }
}

fn begin(headers: &HeaderMap, request: &TokenRequest, secrets: &Secrets) -> (d: Decision)
    ensures
        forall|event: Event|
            d@ == #[trigger] token_decision(
                header_values(*headers),
                request@,
                secrets@,
                TokenStage::Start,
                event,
            ),
{
    if same_text(request.grant_type.as_str(), "password") {
        match (&request.username, &request.password) {
            (None, _) => refuse(bad_request("Missing username")),
            (Some(_), None) => refuse(bad_request("Missing password")),
            (Some(username), Some(_)) => ask(
                Action::Query(
                    Statement::new(USER_BY_EMAIL, Fetch::FirstUser).bind_text(
                        username.as_str().to_lowercase().as_str(),
                    ),
                ),
                TokenState::FindingUser,
            ),
        }
    } else if same_text(request.grant_type.as_str(), "refresh_token") {
        let token = first_text(
            clone_text(&request.refresh_token),
            get_cookie(headers, "bw_refresh_token"),
        );
        match token {
            None => refuse(bad_request("Missing refresh_token")),
            Some(token) => match &secrets.jwt_refresh_secret {
                Err(m) => refuse(AppError::Worker(m.clone())),
                Ok(secret) => Decision::Refresh { token, secret: secret.clone() },
            },
        }
    } else {
        refuse(bad_request("Unsupported grant_type"))
    }
}

fn ask_for_factor(headers: &HeaderMap, request: &TokenRequest, user: User) -> (d: Decision)
    ensures
        forall|keys: Keys|
            d@ == #[trigger] token_decision(
                header_values(*headers),
                request@,
                keys,
                TokenStage::CheckingTwoFactor { user: user@ },
                Event::Enabled(Ok(true)),
            ),
{
    let provider = request.two_factor_provider;
    let wants = match request.two_factor_remember {
        Some(n) => n == 1,
        None => false,
    };
    if provider.is_none() && request.two_factor_token.is_none() {
        let device_identifier = match &request.device_identifier {
            Some(device_identifier) => device_identifier.clone(),
            None => {
                return Decision::Next(Step::Answer(Ok(two_factor_required_response())));
            },
        };
        let cookie = first_text(
            get_cookie(headers, "twoFactorRemember"),
            get_cookie(headers, "TwoFactorRemember"),
        );
        match cookie {
            Some(presented) => ask(
                Action::Query(create_devices_statement()),
                TokenState::PreparingRemembered {
                    user,
                    device_identifier,
                    presented,
                    remember: wants,
                    table: TableStage::Create,
                },
            ),
            None => Decision::Next(Step::Answer(Ok(two_factor_required_response()))),
        }
    } else if provider.is_some() && provider.unwrap() == TWO_FACTOR_PROVIDER_REMEMBER {
        match (&request.device_identifier, &request.two_factor_token) {
            (Some(device_identifier), Some(token)) => ask(
                Action::Query(create_devices_statement()),
                TokenState::PreparingRemembered {
                    user,
                    device_identifier: device_identifier.clone(),
                    presented: token.clone(),
                    remember: false,
                    table: TableStage::Create,
                },
            ),
            _ => Decision::Next(Step::Answer(Ok(two_factor_required_response()))),
        }
    } else if provider.is_some() && provider.unwrap() == TWO_FACTOR_PROVIDER_AUTHENTICATOR {
        match &request.two_factor_token {
            Some(code) => {
                let user_id = user.id.clone();
                ask(
                    Action::AuthenticatorSecret { user_id },
                    TokenState::FetchingSecret { user, code: code.clone() },
                )
            },
            None => Decision::Next(Step::Answer(Ok(two_factor_required_response()))),
        }
    } else {
        Decision::Next(Step::Answer(Ok(two_factor_required_response())))
    }
}

/// Decides how a request for tokens goes on.
pub fn decide(
    headers: &HeaderMap,
    request: &TokenRequest,
    secrets: &Secrets,
    state: TokenState,
    outcome: Outcome,
) -> (d: Decision)
    ensures
        d@ == token_decision(header_values(*headers), request@, secrets@, state@, outcome@),
{
    match state {
        TokenState::Start => begin(headers, request, secrets),
        TokenState::FindingUser => match outcome {
            Outcome::Failed(DbFailure::Bind(m)) => refuse(AppError::Worker(m)),
            Outcome::Failed(_) => refuse(unauthorized("Invalid credentials")),
            Outcome::User(UserRow::Missing) => refuse(unauthorized("Invalid credentials")),
            Outcome::User(UserRow::Malformed) => refuse(AppError::Internal),
            Outcome::User(UserRow::Found(user)) => {
                let right = match &request.password {
                    Some(password) => same_secret(
                        user.master_password_hash.as_str(),
                        password.as_str(),
                    ),
                    None => false,
                };
                if right {
                    let user_id = user.id.clone();
                    ask(
                        Action::AuthenticatorEnabled { user_id },
                        TokenState::CheckingTwoFactor { user },
                    )
                } else {
                    refuse(unauthorized("Invalid credentials"))
                }
            },
            _ => refuse(AppError::Internal),
        },
        TokenState::CheckingTwoFactor { user } => match outcome {
            Outcome::Enabled(Err(e)) => refuse(e),
            Outcome::Enabled(Ok(enabled)) => if enabled {
                ask_for_factor(headers, request, user)
            } else {
                Decision::Grant { user, remember: false }
            },
            _ => refuse(AppError::Internal),
        },
        TokenState::PreparingRemembered {
            user,
            device_identifier,
            presented,
            remember,
            table,
        } => match ensure_devices_table(table, &outcome) {
            TableStep::Run(s, next) => ask(
                Action::Query(s),
                TokenState::PreparingRemembered {
                    user,
                    device_identifier,
                    presented,
                    remember,
                    table: next,
                },
            ),
            TableStep::Failed(e) => refuse(e),
            TableStep::Ready => {
                let lookup = Statement::new(REMEMBERED_HASH, Fetch::FirstRow).bind_text(
                    user.id.as_str(),
                ).bind_text(device_identifier.as_str());
                ask(
                    Action::Query(lookup),
                    TokenState::CheckingRemembered { user, presented, remember },
                )
            },
        },
        TokenState::CheckingRemembered { user, presented, remember } => match outcome {
            Outcome::Failed(f) => refuse(database_error(f)),
            Outcome::Row(row) => {
                let stored = match &row {
                    Some(row) => row.text("remember_token_hash"),
                    None => None,
                };
                let candidate = sha256_hex(trim(presented.as_str()));
                let right = match &stored {
                    Some(stored) => same_secret(stored.as_str(), candidate.as_str()),
                    None => false,
                };
                if right {
                    Decision::Grant { user, remember }
                } else {
                    Decision::Next(Step::Answer(Ok(two_factor_required_response())))
                }
            },
            _ => refuse(AppError::Internal),
        },
        TokenState::FetchingSecret { user, code } => match outcome {
            Outcome::Secret(Err(e)) => refuse(e),
            Outcome::Secret(Ok(Some(secret_enc))) => {
                let user_id = user.id.clone();
                ask(
                    Action::VerifyTotp {
                        key: clone_text(&secrets.two_factor_enc_key),
                        user_id,
                        secret_enc,
                        code,
                    },
                    TokenState::VerifyingCode { user },
                )
            },
            _ => refuse(AppError::Internal),
        },
        TokenState::VerifyingCode { user } => match outcome {
            Outcome::Totp(Err(e)) => refuse(e),
            Outcome::Totp(Ok(right)) => if right {
                let wants = match request.two_factor_remember {
                    Some(n) => n == 1,
                    None => false,
                };
                Decision::Grant { user, remember: wants && request.device_identifier.is_some() }
            } else {
                Decision::Next(Step::Answer(Ok(invalid_two_factor_response())))
            },
            _ => refuse(AppError::Internal),
        },
        TokenState::PreparingDevice {
            user_id,
            device_identifier,
            issued,
            remember_token,
            table,
        } => match ensure_devices_table(table, &outcome) {
            TableStep::Run(s, next) => ask(
                Action::Query(s),
                TokenState::PreparingDevice {
                    user_id,
                    device_identifier,
                    issued,
                    remember_token,
                    table: next,
                },
            ),
            TableStep::Failed(e) => refuse(e),
            TableStep::Ready => Decision::Note {
                user_id,
                device_identifier,
                issued,
                remember_token,
            },
        },
        TokenState::SavingDevice { issued, remember_token } => match outcome {
            Outcome::Failed(f) => refuse(database_error(f)),
            Outcome::Done => Decision::Next(Step::Answer(answer_with_tokens(issued, remember_token))),
            _ => refuse(AppError::Internal),
        },
        TokenState::ReadingClaims => match outcome {
            Outcome::Claims(None) => refuse(unauthorized("Invalid refresh token")),
            Outcome::Claims(Some(claims)) => ask(
                Action::Query(
                    Statement::new(USER_BY_ID, Fetch::FirstUser).bind_text(claims.sub.as_str()),
                ),
                TokenState::FindingRefreshUser,
            ),
            _ => refuse(AppError::Internal),
        },
        TokenState::FindingRefreshUser => match outcome {
            Outcome::Failed(DbFailure::Bind(m)) => refuse(AppError::Worker(m)),
            Outcome::Failed(_) => refuse(unauthorized("Invalid user")),
            Outcome::User(UserRow::Missing) => refuse(unauthorized("Invalid user")),
            Outcome::User(UserRow::Found(user)) => Decision::Renew { user },
            _ => refuse(AppError::Internal),
        },
    }
}

/// Whether it goes on well: with the tokens sent, or with tokens that can be.
pub open spec fn goes_well(next: Move<TokenStage>) -> bool {
    match next {
        Move::Answer(r) => r is Ok,
        Move::Perform(_, stage) => stage.well_formed(),
    }
}

proof fn lemma_token_is_printable(token: Seq<char>)
    requires
        is_token(token),
    ensures
        printable(token),
{
    assert forall|i: int| 0 <= i < token.len() implies ' ' <= #[trigger] token[i] <= '~' by {
        assert(token_char(token[i]));
    }
}

proof fn lemma_deliverable_is_answered()
    ensures
        forall|issue: Issue, remember_token: Option<Seq<char>>|
            deliverable(issue, remember_token) ==> (#[trigger] token_answer(
                issue,
                remember_token,
            )) is Ok,
{
    assert forall|issue: Issue, remember_token: Option<Seq<char>>|
        deliverable(issue, remember_token) implies (#[trigger] token_answer(
        issue,
        remember_token,
    )) is Ok by {
        law_issued_tokens_are_sent(issue, remember_token);
    }
}

/// Issued tokens are always sent: with their cookies, and with what the client is told of them.
pub proof fn law_issued_tokens_are_sent(issue: Issue, remember_token: Option<Seq<char>>)
    requires
        deliverable(issue, remember_token),
    ensures
        token_answer(issue, remember_token) == Ok::<Response, Failure>(
            Response {
                status: 200,
                headers: cookie_headers(token_cookies(issue, remember_token)),
                body: token_body(issue, remember_token),
            },
        ),
{
    reveal_strlit("twoFactorRemember");
    reveal_strlit("TwoFactorRemember");
    reveal_strlit("bw_access_token");
    reveal_strlit("bw_refresh_token");
    lemma_token_is_printable(issue.access_token);
    lemma_token_is_printable(issue.refresh_token);
    law_printable_cookie_is_sendable(
        "bw_access_token"@,
        issue.access_token,
        ACCESS_SECONDS as int,
    );
    law_printable_cookie_is_sendable(
        "bw_refresh_token"@,
        issue.refresh_token,
        REFRESH_SECONDS as int,
    );
    if let Some(t) = remember_token {
        law_remember_token_is_plain(t);
        law_printable_cookie_is_sendable("twoFactorRemember"@, t, REFRESH_SECONDS as int);
        law_printable_cookie_is_sendable("TwoFactorRemember"@, t, REFRESH_SECONDS as int);
    }
}

/// What a grant does: tokens are issued; a device that says which it is is noted before they are
/// sent.
pub open spec fn grant_move(
    form: TokenForm,
    keys: Keys,
    user: Account,
    remember_token: Option<Seq<char>>,
    now: Timestamp,
) -> Move<TokenStage> {
    match tokens_for(user, keys, now) {
        Err(f) => Move::Answer(Err(f)),
        Ok(issue) => match form.device_identifier {
            Some(device_identifier) => Move::Perform(
                Work::Query(create_devices()),
                TokenStage::PreparingDevice {
                    user_id: user.id,
                    device_identifier,
                    issue,
                    remember_token,
                    table: TableStage::Create,
                },
            ),
            None => Move::Answer(token_answer(issue, remember_token)),
        },
    }
}

/// Grants tokens at `now`.
pub fn grant(
    request: &TokenRequest,
    secrets: &Secrets,
    user: &User,
    remember_token: Option<String>,
    now: &Timestamp,
) -> (step: Step<TokenState>)
    requires
        now.dated(),
    ensures
        step@ == grant_move(request@, secrets@, user@, text_view(remember_token), *now),
        issues_well(user@, secrets@, *now),
        drawn(remember_token is Some, text_view(remember_token)) && secrets@.jwt_secret is Ok
            && secrets@.jwt_refresh_secret is Ok ==> goes_well(step@),
{
    proof {
        if drawn(remember_token is Some, text_view(remember_token)) {
            lemma_deliverable_is_answered();
        }
    }
    match issue_tokens(user, secrets, now) {
        Err(e) => Step::Answer(Err(e)),
        Ok(issued) => match &request.device_identifier {
            Some(device_identifier) => Step::Perform(
                Action::Query(create_devices_statement()),
                TokenState::PreparingDevice {
                    user_id: user.id.clone(),
                    device_identifier: device_identifier.clone(),
                    issued,
                    remember_token,
                    table: TableStage::Create,
                },
            ),
            None => Step::Answer(answer_with_tokens(issued, remember_token)),
        },
    }
}

/// The form's device type as it is stored.
pub open spec fn device_type_of(form: TokenForm) -> Option<int> {
    match form.device_type {
        Some(n) => Some(n as int),
        None => None,
    }
}

/// Notes a device that signed in: of the remember token only the digest is stored.
pub open spec fn save_device(
    form: TokenForm,
    user_id: Seq<char>,
    device_identifier: Seq<char>,
    remember_token: Option<Seq<char>>,
    id: Seq<char>,
    now: Timestamp,
) -> Query {
    query(SAVE_DEVICE@, Fetch::Nothing).bind(Bound::Text(id)).bind(Bound::Text(user_id)).bind(
        Bound::Text(device_identifier),
    ).bind(optional_text(form.device_name)).bind(optional_integer(device_type_of(form))).bind(
        match remember_token {
            Some(t) => Bound::Text(sha256_hex_of(t)),
            None => Bound::Null,
        },
    ).bind(Bound::Text(now.text())).bind(Bound::Text(now.text()))
}

/// Notes the device, with the identifier and the time for a new row.
pub fn note_device(
    request: &TokenRequest,
    user_id: &str,
    device_identifier: &str,
    issued: IssuedTokens,
    remember_token: Option<String>,
    id: &str,
    now: &Timestamp,
) -> (step: Step<TokenState>)
    requires
        now.dated(),
    ensures
        step@ == Move::<TokenStage>::Perform(
            Work::Query(
                save_device(
                    request@,
                    user_id@,
                    device_identifier@,
                    text_view(remember_token),
                    id@,
                    *now,
                ),
            ),
            TokenStage::SavingDevice { issue: issued@, remember_token: text_view(remember_token) },
        ),
{
    let now = now.to_rfc3339();
    let remember_hash = match &remember_token {
        Some(token) => Some(sha256_hex(token.as_str())),
        None => None,
    };
    let device_type: Option<i64> = match request.device_type {
        Some(n) => Some(n as i64),
        None => None,
    };
    let save = Statement::new(SAVE_DEVICE, Fetch::Nothing).bind_text(id).bind_text(
        user_id,
    ).bind_text(device_identifier).bind(js_opt_string(clone_text(&request.device_name))).bind(
        js_opt_i64(device_type),
    ).bind(js_opt_string(remember_hash)).bind_text(now.as_str()).bind_text(now.as_str());
    Step::Perform(Action::Query(save), TokenState::SavingDevice { issued, remember_token })
}

/// What is done of a refresh token's payload: its claims are read. Without one the token was no
/// good.
pub open spec fn refresh_move(payload: Option<Seq<char>>) -> Move<TokenStage> {
    match payload {
        Some(payload) => Move::Perform(Work::ReadClaims { payload }, TokenStage::ReadingClaims),
        None => Move::Answer(Err(Failure::Unauthorized("Invalid refresh token"@))),
    }
}

/// Goes on with a refresh token's payload.
pub fn refresh(payload: Option<String>) -> (step: Step<TokenState>)
    ensures
        step@ == refresh_move(text_view(payload)),
{
    match payload {
        Some(payload) => Step::Perform(Action::ReadClaims { payload }, TokenState::ReadingClaims),
        None => Step::Answer(Err(unauthorized("Invalid refresh token"))),
    }
}

/// What a renewal does: tokens are issued and sent.
pub open spec fn renew_answer(keys: Keys, user: Account, now: Timestamp) -> Result<
    Response,
    Failure,
> {
    match tokens_for(user, keys, now) {
        Err(f) => Err(f),
        Ok(issue) => token_answer(issue, None),
    }
}

/// Renews tokens at `now`.
pub fn renew(secrets: &Secrets, user: &User, now: &Timestamp) -> (r: Result<Reply, AppError>)
    requires
        now.dated(),
    ensures
        answers(r, renew_answer(secrets@, user@, *now)),
        issues_well(user@, secrets@, *now),
        secrets@.jwt_secret is Ok && secrets@.jwt_refresh_secret is Ok ==> r is Ok,
{
    proof {
        lemma_deliverable_is_answered();
    }
    match issue_tokens(user, secrets, now) {
        Err(e) => Err(e),
        Ok(issued) => answer_with_tokens(issued, None),
    }
}

/// A remember token that was drawn where it is wanted, and none else.
pub open spec fn drawn(remember: bool, remember_token: Option<Seq<char>>) -> bool {
    match remember_token {
        Some(t) => remember && is_remember_token(t),
        None => !remember,
    }
}

/// What may be done of a verdict, whatever is drawn for it (the time, a remember token, a row's
/// identifier) and whatever comes of a token that is verified.
pub open spec fn carries_out(
    form: TokenForm,
    keys: Keys,
    verdict: Verdict,
    next: Move<TokenStage>,
) -> bool {
    match verdict {
        Verdict::Next(m) => next == m,
        Verdict::Grant { user, remember } => exists|t: Option<Seq<char>>, now: Timestamp|
            drawn(remember, t) && now.dated() && issues_well(user, keys, now) && next
                == #[trigger] grant_move(
                form,
                keys,
                user,
                t,
                now,
            ),
        Verdict::Note { user_id, device_identifier, issue, remember_token } => exists|
            id: Seq<char>,
            now: Timestamp,
        |
            random_uuid(id) && now.dated() && next == Move::<TokenStage>::Perform(
                Work::Query(
                    #[trigger] save_device(
                        form,
                        user_id,
                        device_identifier,
                        remember_token,
                        id,
                        now,
                    ),
                ),
                TokenStage::SavingDevice { issue, remember_token },
            ),
        Verdict::Refresh { token, secret } => exists|payload: Option<Seq<char>>|
            verified_payload(token, secret, payload) && next == #[trigger] refresh_move(payload),
        Verdict::Renew { user } => exists|now: Timestamp|
            now.dated() && issues_well(user, keys, now) && next == Move::<TokenStage>::Answer(
                #[trigger] renew_answer(keys, user, now),
            ),
    }
}

impl Verdict {
    /// Tokens that wait to be sent can be sent.
    pub open spec fn well_formed(self) -> bool {
        match self {
            Verdict::Next(Move::Perform(_, stage)) => stage.well_formed(),
            Verdict::Note { issue, remember_token, .. } => deliverable(issue, remember_token),
            _ => true,
        }
    }
}

/// Does what is decided, with the time and whatever else has to be drawn for it.
pub fn carry_out(request: &TokenRequest, secrets: &Secrets, decision: Decision) -> (step: Step<
    TokenState,
>)
    ensures
        carries_out(request@, secrets@, decision@, step@),
        decision@.well_formed() ==> (step@ matches Move::Perform(_, next) ==> next.well_formed()),
        (decision@ is Grant || decision@ is Renew) && secrets@.jwt_secret is Ok
            && secrets@.jwt_refresh_secret is Ok ==> goes_well(step@),
{
    match decision {
        Decision::Next(step) => step,
        Decision::Grant { user, remember } => {
            let remember_token = if remember {
                Some(generate_remember_token())
            } else {
                None
            };
            let now = current_time();
            assert(drawn(remember, text_view(remember_token)));
            grant(request, secrets, &user, remember_token, &now)
        },
        Decision::Note { user_id, device_identifier, issued, remember_token } => {
            let id = new_row_id();
            let now = current_time();
            note_device(
                request,
                user_id.as_str(),
                device_identifier.as_str(),
                issued,
                remember_token,
                id.as_str(),
                &now,
            )
        },
        Decision::Refresh { token, secret } => refresh(
            refresh_payload(token.as_str(), secret.as_str()),
        ),
        Decision::Renew { user } => {
            let now = current_time();
            Step::Answer(renew(secrets, &user, &now))
        },
    }
}

/// Goes on with a request for tokens.
pub fn token(
    headers: &HeaderMap,
    request: &TokenRequest,
    secrets: &Secrets,
    state: TokenState,
    outcome: Outcome,
) -> (step: Step<TokenState>)
    ensures
        carries_out(
            request@,
            secrets@,
            token_decision(header_values(*headers), request@, secrets@, state@, outcome@),
            step@,
        ),
        state@.well_formed() ==> (step@ matches Move::Perform(_, next) ==> next.well_formed()),
        state@.well_formed() && state is SavingDevice && outcome is Done ==> goes_well(step@),
        token_decision(header_values(*headers), request@, secrets@, state@, outcome@) is Grant
            && secrets@.jwt_secret is Ok && secrets@.jwt_refresh_secret is Ok ==> goes_well(step@),
        token_decision(header_values(*headers), request@, secrets@, state@, outcome@) is Renew
            && secrets@.jwt_secret is Ok && secrets@.jwt_refresh_secret is Ok ==> goes_well(step@),
{
    proof {
        lemma_deliverable_is_answered();
    }
    carry_out(request, secrets, decide(headers, request, secrets, state, outcome))
}

} // verus!
