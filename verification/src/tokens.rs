//! Accounts, claims, and the tokens that are issued for them.
use vstd::prelude::*;
use jsonwebtoken::{DecodingKey, EncodingKey, Header, Validation};
use serde_json::value::RawValue;
use serde_json::Value;
use std::collections::BTreeMap;
use crate::clock::{current_time, Timestamp, ACCESS_SECONDS, REFRESH_SECONDS};
use crate::codec::base64url_char;
use crate::error::{AppError, Failure};
use crate::json::{no_members, Document, Json, Members};
use crate::request::text_view;

verus! {

broadcast use vstd::string::group_string_axioms;

/// A user's account, as far as signing in reads it.
#[derive(Debug)]
pub struct User {
    pub id: String,
    pub name: Option<String>,
    pub email: String,
    pub master_password_hash: String,
    pub key: String,
    pub private_key: String,
    pub public_key: String,
    pub kdf_type: i64,
    pub kdf_iterations: i64,
}

/// An account as a value.
#[verifier::ext_equal]
pub struct Account {
    pub id: Seq<char>,
    pub name: Option<Seq<char>>,
    pub email: Seq<char>,
    pub master_password_hash: Seq<char>,
    pub key: Seq<char>,
    pub private_key: Seq<char>,
    pub public_key: Seq<char>,
    pub kdf_type: i64,
    pub kdf_iterations: i64,
}

impl View for User {
    type V = Account;

    open spec fn view(&self) -> Account {
        Account {
            id: self.id@,
            name: text_view(self.name),
            email: self.email@,
            master_password_hash: self.master_password_hash@,
            key: self.key@,
            private_key: self.private_key@,
            public_key: self.public_key@,
            kdf_type: self.kdf_type,
            kdf_iterations: self.kdf_iterations,
        }
    }
}

/// What a token says.
#[derive(Debug)]
pub struct Claims {
    /// The account's identifier.
    pub sub: String,
    /// The second from which the token is no longer good.
    pub exp: usize,
    /// The second from which the token is good.
    pub nbf: usize,
    pub premium: bool,
    pub name: String,
    pub email: String,
    pub email_verified: bool,
    /// How the user showed who they are.
    pub amr: Vec<String>,
}

/// Claims as a value.
#[verifier::ext_equal]
pub struct ClaimSet {
    pub sub: Seq<char>,
    pub exp: usize,
    pub nbf: usize,
    pub premium: bool,
    pub name: Seq<char>,
    pub email: Seq<char>,
    pub email_verified: bool,
    pub amr: Seq<Seq<char>>,
}

impl View for Claims {
    type V = ClaimSet;

    open spec fn view(&self) -> ClaimSet {
        ClaimSet {
            sub: self.sub@,
            exp: self.exp,
            nbf: self.nbf,
            premium: self.premium,
            name: self.name@,
            email: self.email@,
            email_verified: self.email_verified,
            amr: self.amr@.map_values(|m: String| m@),
        }
    }
}

// ---- what is trusted of the jsonwebtoken crate ----

#[verifier::external_type_specification]
#[verifier::external_body]
pub struct ExJwtError(jsonwebtoken::errors::Error);

/// The JSON object that carries `claims`, as text.
pub uninterp spec fn claims_text(claims: ClaimSet) -> Seq<char>;

/// The token that carries `claims`, signed with `secret`.
pub uninterp spec fn signed_token(claims: ClaimSet, secret: Seq<char>) -> Seq<char>;

/// The JSON text that a token carries, where it is signed with `secret`.
pub uninterp spec fn token_payload(token: Seq<char>, secret: Seq<char>) -> Option<Seq<char>>;

/// A character that a token is written with.
pub open spec fn token_char(c: char) -> bool {
    base64url_char(c) || c == '.'
}

/// `jsonwebtoken::encode` with the default header, HMAC with SHA-256: a token that the claims and
/// the secret determine, made of base64 parts with dots between, that carries the claims and is
/// signed with the secret. Claims that are texts, numbers and flags always serialise, and the key
/// is of the kind that the header asks for, so it never fails.
#[verifier::external_body]
fn sign_claims(claims: &Claims, secret: &str) -> (token: Result<String, jsonwebtoken::errors::Error>)
    ensures
        token is Ok,
        token->Ok_0@ == signed_token(claims@, secret@),
        token_payload(token->Ok_0@, secret@) == Some(claims_text(claims@)),
        forall|i: int| 0 <= i < token->Ok_0@.len() ==> token_char(#[trigger] token->Ok_0@[i]),
{
    let payload = BTreeMap::from([
        ("sub", Value::from(claims.sub.as_str())),
        ("exp", Value::from(claims.exp)),
        ("nbf", Value::from(claims.nbf)),
        ("premium", Value::from(claims.premium)),
        ("name", Value::from(claims.name.as_str())),
        ("email", Value::from(claims.email.as_str())),
        ("email_verified", Value::from(claims.email_verified)),
        ("amr", Value::from(claims.amr.clone())),
    ]);
    jsonwebtoken::encode(&Header::default(), &payload, &EncodingKey::from_secret(secret.as_bytes()))
}

/// `jsonwebtoken::decode` with the default validation, which hands out the payload as it stands:
/// where it succeeds, the token is signed with the secret and carries that payload. Whether it
/// succeeds also depends on the time, for a token that has expired is no good; so nothing is said
/// of when it does.
#[verifier::external_body]
fn verify_token(token: &str, secret: &str) -> (payload: Result<
    String,
    jsonwebtoken::errors::Error,
>)
    ensures
        payload matches Ok(p) ==> token_payload(token@, secret@) == Some(p@),
{
    let key = DecodingKey::from_secret(secret.as_bytes());
    jsonwebtoken::decode::<Box<RawValue>>(token, &key, &Validation::default()).map(
        |data| data.claims.get().to_string(),
    )
}

// ---- what is issued ----

/// The keys that the server holds. A key that is not there comes with the platform's complaint.
#[derive(Debug)]
pub struct Secrets {
    pub jwt_secret: Result<String, String>,
    pub jwt_refresh_secret: Result<String, String>,
    pub two_factor_enc_key: Option<String>,
}

/// The server's keys as a value.
#[verifier::ext_equal]
pub struct Keys {
    pub jwt_secret: Result<Seq<char>, Seq<char>>,
    pub jwt_refresh_secret: Result<Seq<char>, Seq<char>>,
    pub two_factor_enc_key: Option<Seq<char>>,
}

/// A key that may be there, as a value.
pub open spec fn key_view(key: Result<String, String>) -> Result<Seq<char>, Seq<char>> {
    match key {
        Ok(k) => Ok(k@),
        Err(m) => Err(m@),
    }
}

impl View for Secrets {
    type V = Keys;

    open spec fn view(&self) -> Keys {
        Keys {
            jwt_secret: key_view(self.jwt_secret),
            jwt_refresh_secret: key_view(self.jwt_refresh_secret),
            two_factor_enc_key: text_view(self.two_factor_enc_key),
        }
    }
}

/// The claims of a token that is issued for `user` at `now` and lives for `lifetime` seconds.
pub open spec fn claims_for(user: Account, now: Timestamp, lifetime: int) -> ClaimSet {
    ClaimSet {
        sub: user.id,
        exp: (now.secs + lifetime) as usize,
        nbf: now.secs as usize,
        premium: true,
        name: match user.name {
            Some(name) => name,
            None => "User"@,
        },
        email: user.email,
        email_verified: true,
        amr: seq!["Application"@],
    }
}

/// The claims of a token that is issued for `user` at `now` and lives for `lifetime` seconds.
pub fn issue_claims(user: &User, now: &Timestamp, lifetime: i64) -> (claims: Claims)
    requires
        now.dated(),
        0 <= lifetime <= REFRESH_SECONDS,
    ensures
        claims@ == claims_for(user@, *now, lifetime as int),
{
    let mut amr: Vec<String> = Vec::new();
    amr.push("Application".to_owned());
    let name = match &user.name {
        Some(name) => name.clone(),
        None => "User".to_owned(),
    };
    let claims = Claims {
        sub: user.id.clone(),
        #[verifier::truncate]
        exp: (now.secs + lifetime) as usize,
        #[verifier::truncate]
        nbf: now.secs as usize,
        premium: true,
        name,
        email: user.email.clone(),
        email_verified: true,
        amr,
    };
    assert(claims@.amr =~= seq!["Application"@]);
    claims
}

/// Tokens that have been issued, and what the client is told.
pub struct IssuedTokens {
    pub access_token: String,
    pub refresh_token: String,
    pub response: Members,
}

/// Issued tokens as a value.
#[verifier::ext_equal]
pub struct Issue {
    pub access_token: Seq<char>,
    pub refresh_token: Seq<char>,
    pub response: Seq<(Seq<char>, Document)>,
}

impl View for IssuedTokens {
    type V = Issue;

    open spec fn view(&self) -> Issue {
        Issue {
            access_token: self.access_token@,
            refresh_token: self.refresh_token@,
            response: self.response@,
        }
    }
}

/// The policy that no client has to follow.
pub open spec fn empty_policy() -> Document {
    Document::Object(no_members().push(("Object"@, Document::Text("masterPasswordPolicy"@))))
}

/// The policy that no client has to follow.
pub fn empty_policy_json() -> (json: Json)
    ensures
        json@ == empty_policy(),
{
    Members::new().with("Object", Json::text("masterPasswordPolicy")).object()
}

/// How the client derives the master key.
pub open spec fn kdf_settings(user: Account) -> Document {
    Document::Object(
        no_members().push(("KdfType"@, Document::Integer(user.kdf_type as int))).push(
            ("Iterations"@, Document::Integer(user.kdf_iterations as int)),
        ).push(("Memory"@, Document::Null)).push(("Parallelism"@, Document::Null)),
    )
}

/// How the client unlocks the vault with the master password.
pub open spec fn master_password_unlock(user: Account) -> Document {
    Document::Object(
        no_members().push(("Kdf"@, kdf_settings(user))).push(
            ("MasterKeyEncryptedUserKey"@, Document::Text(user.key)),
        ).push(("MasterKeyWrappedUserKey"@, Document::Text(user.key))).push(
            ("Salt"@, Document::Text(user.email)),
        ),
    )
}

/// What the client can decrypt the vault with.
pub open spec fn decryption_options(user: Account) -> Document {
    Document::Object(
        no_members().push(("HasMasterPassword"@, Document::Bool(true))).push(
            ("MasterPasswordUnlock"@, master_password_unlock(user)),
        ).push(("Object"@, Document::Text("userDecryptionOptions"@))),
    )
}

/// The account's key pair.
pub open spec fn account_keys(user: Account) -> Document {
    Document::Object(
        no_members().push(
            (
                "publicKeyEncryptionKeyPair"@,
                Document::Object(
                    no_members().push(("wrappedPrivateKey"@, Document::Text(user.private_key))).push(
                        ("publicKey"@, Document::Text(user.public_key)),
                    ).push(("Object"@, Document::Text("publicKeyEncryptionKeyPair"@))),
                ),
            ),
        ).push(("Object"@, Document::Text("privateKeys"@))),
    )
}

/// What a client is told that is given tokens.
pub open spec fn token_response(
    user: Account,
    access_token: Seq<char>,
    refresh_token: Seq<char>,
) -> Seq<(Seq<char>, Document)> {
    no_members().push(("ForcePasswordReset"@, Document::Bool(false))).push(
        ("Kdf"@, Document::Integer(user.kdf_type as int)),
    ).push(("KdfIterations"@, Document::Integer(user.kdf_iterations as int))).push(
        ("KdfMemory"@, Document::Null),
    ).push(("KdfParallelism"@, Document::Null)).push(("Key"@, Document::Text(user.key))).push(
        ("MasterPasswordPolicy"@, empty_policy()),
    ).push(("PrivateKey"@, Document::Text(user.private_key))).push(
        ("ResetMasterPassword"@, Document::Bool(false)),
    ).push(("UserDecryptionOptions"@, decryption_options(user))).push(
        ("AccountKeys"@, account_keys(user)),
    ).push(("access_token"@, Document::Text(access_token))).push(
        ("expires_in"@, Document::Integer(ACCESS_SECONDS as int)),
    ).push(("refresh_token"@, Document::Text(refresh_token))).push(
        ("scope"@, Document::Text("api offline_access"@)),
    ).push(("token_type"@, Document::Text("Bearer"@)))
}

/// What a client is told that is given tokens.
pub fn token_response_members(user: &User, access_token: &str, refresh_token: &str) -> (members:
    Members)
    ensures
        members@ == token_response(user@, access_token@, refresh_token@),
{
    let kdf = Members::new().with("KdfType", Json::Integer(user.kdf_type)).with(
        "Iterations",
        Json::Integer(user.kdf_iterations),
    ).with("Memory", Json::Null).with("Parallelism", Json::Null).object();
    let unlock = Members::new().with("Kdf", kdf).with(
        "MasterKeyEncryptedUserKey",
        Json::text(user.key.as_str()),
    ).with("MasterKeyWrappedUserKey", Json::text(user.key.as_str())).with(
        "Salt",
        Json::text(user.email.as_str()),
    ).object();
    let options = Members::new().with("HasMasterPassword", Json::Bool(true)).with(
        "MasterPasswordUnlock",
        unlock,
    ).with("Object", Json::text("userDecryptionOptions")).object();
    let pair = Members::new().with("wrappedPrivateKey", Json::text(user.private_key.as_str())).with(
        "publicKey",
        Json::text(user.public_key.as_str()),
    ).with("Object", Json::text("publicKeyEncryptionKeyPair")).object();
    let keys = Members::new().with("publicKeyEncryptionKeyPair", pair).with(
        "Object",
        Json::text("privateKeys"),
    ).object();
    Members::new().with("ForcePasswordReset", Json::Bool(false)).with(
        "Kdf",
        Json::Integer(user.kdf_type),
    ).with("KdfIterations", Json::Integer(user.kdf_iterations)).with("KdfMemory", Json::Null).with(
        "KdfParallelism",
        Json::Null,
    ).with("Key", Json::text(user.key.as_str())).with("MasterPasswordPolicy", empty_policy_json()).with(
        "PrivateKey",
        Json::text(user.private_key.as_str()),
    ).with("ResetMasterPassword", Json::Bool(false)).with("UserDecryptionOptions", options).with(
        "AccountKeys",
        keys,
    ).with("access_token", Json::text(access_token)).with(
        "expires_in",
        Json::Integer(ACCESS_SECONDS),
    ).with("refresh_token", Json::text(refresh_token)).with(
        "scope",
        Json::text("api offline_access"),
    ).with("token_type", Json::text("Bearer"))
}

/// What is issued for `user` at `now`: an access token for two hours and a refresh token for thirty
/// days, each signed with its own key. A key that is not there is the platform's complaint; the
/// access token's is missed first.
pub open spec fn tokens_for(user: Account, keys: Keys, now: Timestamp) -> Result<Issue, Failure> {
    match (keys.jwt_secret, keys.jwt_refresh_secret) {
        (Err(m), _) => Err(Failure::Worker(m)),
        (Ok(_), Err(m)) => Err(Failure::Worker(m)),
        (Ok(access_key), Ok(refresh_key)) => {
            let access_token = signed_token(
                claims_for(user, now, ACCESS_SECONDS as int),
                access_key,
            );
            let refresh_token = signed_token(
                claims_for(user, now, REFRESH_SECONDS as int),
                refresh_key,
            );
            Ok(
                Issue {
                    access_token,
                    refresh_token,
                    response: token_response(user, access_token, refresh_token),
                },
            )
        },
    }
}

/// An issue against the one that is meant.
pub open spec fn issued_as(
    r: Result<IssuedTokens, AppError>,
    meant: Result<Issue, Failure>,
) -> bool {
    match (r, meant) {
        (Ok(issued), Ok(issue)) => issued@ == issue,
        (Err(e), Err(f)) => e@ == f,
        _ => false,
    }
}

/// A text of token characters.
pub open spec fn is_token(s: Seq<char>) -> bool {
    forall|i: int| 0 <= i < s.len() ==> token_char(#[trigger] s[i])
}

/// Whether each of the issued tokens is signed with its key and carries its claims.
pub open spec fn carries_claims(issue: Issue, user: Account, keys: Keys, now: Timestamp) -> bool {
    &&& keys.jwt_secret matches Ok(key) && token_payload(issue.access_token, key) == Some(
        claims_text(claims_for(user, now, ACCESS_SECONDS as int)),
    )
    &&& keys.jwt_refresh_secret matches Ok(key) && token_payload(issue.refresh_token, key) == Some(
        claims_text(claims_for(user, now, REFRESH_SECONDS as int)),
    )
}

/// What holds of tokens that were issued: they are written with token characters, and carry their
/// claims.
pub open spec fn is_issue(issue: Issue, user: Account, keys: Keys, now: Timestamp) -> bool {
    &&& tokens_for(user, keys, now) == Ok::<Issue, Failure>(issue)
    &&& is_token(issue.access_token)
    &&& is_token(issue.refresh_token)
    &&& carries_claims(issue, user, keys, now)
}

/// Issues tokens for `user` at `now`.
pub fn issue_tokens(user: &User, secrets: &Secrets, now: &Timestamp) -> (r: Result<
    IssuedTokens,
    AppError,
>)
    requires
        now.dated(),
    ensures
        issued_as(r, tokens_for(user@, secrets@, *now)),
        r matches Ok(issued) ==> is_issue(issued@, user@, secrets@, *now),
{
    let access_claims = issue_claims(user, now, ACCESS_SECONDS);
    let jwt_secret = match &secrets.jwt_secret {
        Ok(key) => key,
        Err(m) => {
            return Err(AppError::Worker(m.clone()));
        },
    };
    let access_token = match sign_claims(&access_claims, jwt_secret.as_str()) {
        Ok(token) => token,
        Err(_) => {
            return Err(AppError::JsonWebToken);
        },
    };
    let refresh_claims = issue_claims(user, now, REFRESH_SECONDS);
    let jwt_refresh_secret = match &secrets.jwt_refresh_secret {
        Ok(key) => key,
        Err(m) => {
            return Err(AppError::Worker(m.clone()));
        },
    };
    let refresh_token = match sign_claims(&refresh_claims, jwt_refresh_secret.as_str()) {
        Ok(token) => token,
        Err(_) => {
            return Err(AppError::JsonWebToken);
        },
    };
    let response = token_response_members(user, access_token.as_str(), refresh_token.as_str());
    Ok(IssuedTokens { access_token, refresh_token, response })
}

/// Whether what is issued for `user` at `now` holds what issued tokens do; nothing is claimed where
/// none can be issued.
pub open spec fn issues_well(user: Account, keys: Keys, now: Timestamp) -> bool {
    tokens_for(user, keys, now) matches Ok(issue) ==> is_issue(issue, user, keys, now)
}

/// Issues tokens for `user` now.
pub fn generate_tokens_and_response(user: &User, secrets: &Secrets) -> (r: Result<
    IssuedTokens,
    AppError,
>)
    ensures
        exists|now: Timestamp|
            now.dated() && #[trigger] issued_as(r, tokens_for(user@, secrets@, now)) && (
            r matches Ok(issued) ==> is_issue(issued@, user@, secrets@, now)),
{
    let now = current_time();
    let r = issue_tokens(user, secrets, &now);
    assert(now.dated() && issued_as(r, tokens_for(user@, secrets@, now)));
    r
}

/// A payload that verifying `token` with `secret` may have given: what the token carries, or
/// nothing.
pub open spec fn verified_payload(
    token: Seq<char>,
    secret: Seq<char>,
    payload: Option<Seq<char>>,
) -> bool {
    payload is Some ==> token_payload(token, secret) == payload
}

/// The payload of a token, where it is good now.
pub fn refresh_payload(token: &str, secret: &str) -> (payload: Option<String>)
    ensures
        verified_payload(token@, secret@, text_view(payload)),
{
    match verify_token(token, secret) {
        Ok(payload) => Some(payload),
        Err(_) => None,
    }
}

// ---- laws ----

/// Both tokens name the same account and are good from the same second on; the access token for
/// two hours, the refresh token for thirty days. The seconds have to fit in `usize`.
pub proof fn law_token_lifetimes(user: Account, now: Timestamp)
    requires
        0 <= now.secs,
        now.secs + REFRESH_SECONDS <= usize::MAX,
    ensures
        claims_for(user, now, ACCESS_SECONDS as int).sub == user.id,
        claims_for(user, now, REFRESH_SECONDS as int).sub == user.id,
        claims_for(user, now, ACCESS_SECONDS as int).nbf == now.secs,
        claims_for(user, now, REFRESH_SECONDS as int).nbf == now.secs,
        claims_for(user, now, ACCESS_SECONDS as int).exp == now.secs + 2 * 60 * 60,
        claims_for(user, now, REFRESH_SECONDS as int).exp == now.secs + 30 * 24 * 60 * 60,
{
}

/// Tokens are issued exactly where both keys are there.
pub proof fn law_tokens_need_both_keys(user: Account, keys: Keys, now: Timestamp)
    ensures
        tokens_for(user, keys, now) is Ok <==> keys.jwt_secret is Ok && keys.jwt_refresh_secret is Ok,
{
}

/// An account is taken field by field, as it is stored.
pub proof fn law_account_is_taken_whole(user: User)
    ensures
        user@.id == user.id@,
        user@.name == text_view(user.name),
        user@.email == user.email@,
        user@.master_password_hash == user.master_password_hash@,
        user@.key == user.key@,
        user@.private_key == user.private_key@,
        user@.public_key == user.public_key@,
        user@.kdf_type == user.kdf_type,
        user@.kdf_iterations == user.kdf_iterations,
{
}

/// Claims are taken field by field, as they are signed and read.
pub proof fn law_claims_are_taken_whole(claims: Claims, i: int)
    ensures
        claims@.sub == claims.sub@,
        claims@.exp == claims.exp,
        claims@.nbf == claims.nbf,
        claims@.premium == claims.premium,
        claims@.name == claims.name@,
        claims@.email == claims.email@,
        claims@.email_verified == claims.email_verified,
        claims@.amr.len() == claims.amr@.len(),
        0 <= i < claims.amr@.len() ==> claims@.amr[i] == claims.amr@[i]@,
{
}

/// The server's keys are taken as they are, and what the platform says of a missing one too.
pub proof fn law_keys_are_taken_whole(secrets: Secrets)
    ensures
        secrets@.jwt_secret == (match secrets.jwt_secret {
            Ok(k) => Ok::<Seq<char>, Seq<char>>(k@),
            Err(m) => Err(m@),
        }),
        secrets@.jwt_refresh_secret == (match secrets.jwt_refresh_secret {
            Ok(k) => Ok::<Seq<char>, Seq<char>>(k@),
            Err(m) => Err(m@),
        }),
        secrets@.two_factor_enc_key == text_view(secrets.two_factor_enc_key),
{
}

/// What was issued is what is meant, token for token and member for member; and a failure is the one
/// that is meant.
pub proof fn law_issue_is_exact(r: Result<IssuedTokens, AppError>, meant: Result<Issue, Failure>)
    requires
        issued_as(r, meant),
    ensures
        match r {
            Ok(issued) => meant == Ok::<Issue, Failure>(
                Issue {
                    access_token: issued.access_token@,
                    refresh_token: issued.refresh_token@,
                    response: issued.response@,
                },
            ),
            Err(e) => meant == Err::<Issue, Failure>(e@),
        },
{
}

} // verus!
