//! Requests for tokens from their start to their answer: what is asked for in turn, and what is
//! answered for everything that can come back.
use vstd::prelude::*;
use vstd::utf8::encode_utf8;
use crate::clock::Timestamp;
use crate::codec::{is_remember_token, lowercase, random_uuid, sha256_hex_of};
use crate::error::{AppError, Failure};
use crate::flow::{AccountRow, Event, Move, QueryFailure, Reply, Response, Work};
use crate::headers::{
    cookie_line, law_cookie_is_sent_as_given, request_cookie, sendable,
};
use crate::identity::{
    answers, carries_out, cookie_answer, cookie_headers, deliverable, drawn, grant_move,
    invalid_two_factor, law_issued_tokens_are_sent, refresh_move, renew_answer, save_device,
    token_answer, token_body, token_cookies, token_decision, two_factor_refusal,
    two_factor_required, Cookie, TokenStage, Verdict, REMEMBERED_HASH, SAVE_DEVICE, USER_BY_EMAIL, USER_BY_ID,
};
use crate::json::{lemma_member_at, member, member_of, Document};
use crate::journeys::{asks, asks_for, fails, fails_for};
use crate::request::TokenForm;
use crate::runs::{law_body_holds_the_tokens, presented_refresh_token};
use crate::sql::{text_in, Bound, Fetch, ALTER_DEVICES, CREATE_DEVICES};
use crate::text::{decimal, digits_of, trimmed};
use crate::tokens::{
    account_keys, claims_for, claims_text, decryption_options, empty_policy, is_issue, issues_well,
    kdf_settings, master_password_unlock, signed_token, token_payload, tokens_for, verified_payload,
    Account, ClaimSet, Issue, Keys,
};

verus! {

broadcast use vstd::string::group_string_axioms;

// ---- how a request goes on ----

/// How a request is decided that goes on and is told `event`. One that has nothing more to be told
/// stays as it is decided.
pub open spec fn decided(
    v: Verdict,
    headers: Map<Seq<char>, Seq<Seq<u8>>>,
    form: TokenForm,
    keys: Keys,
    event: Event,
) -> Verdict {
    match v {
        Verdict::Next(Move::Perform(_, stage)) => token_decision(
            headers,
            form,
            keys,
            stage,
            event,
        ),
        _ => v,
    }
}

/// Whether a request is decided to ask for this next.
pub open spec fn wants(v: Verdict, work: Work) -> bool {
    v matches Verdict::Next(m) && asks(m, work)
}

/// Whether a request is decided to ask for this statement to be run next.
pub open spec fn wants_statement(
    v: Verdict,
    sql: Seq<char>,
    params: Seq<Bound>,
    fetch: Fetch,
) -> bool {
    v matches Verdict::Next(m) && asks_for(m, sql, params, fetch)
}

/// Whether a request is refused.
pub open spec fn is_refused(v: Verdict, failure: Failure) -> bool {
    v matches Verdict::Next(m) && fails(m, failure)
}

/// Whether a request is refused for a statement that failed.
pub open spec fn is_refused_for(v: Verdict, failure: QueryFailure) -> bool {
    v matches Verdict::Next(m) && fails_for(m, failure)
}

/// Whether a request is told that a second factor is needed, or that the code is wrong: the error
/// of a bad grant, with the authenticator as the one provider, and no cookie.
pub open spec fn is_told_of_factor(v: Verdict, description: Seq<char>) -> bool {
    v matches Verdict::Next(Move::Answer(Ok(r))) && r.status == 400 && r.headers == Map::<
        Seq<char>,
        Seq<Seq<u8>>,
    >::empty() && is_refusal_body(r.body, description)
}

/// Whether a document is the refusal of a grant for the second factor.
pub open spec fn is_refusal_body(document: Document, description: Seq<char>) -> bool {
    &&& member_of(document, "error"@) == Some(Document::Text("invalid_grant"@))
    &&& member_of(document, "error_description"@) == Some(Document::Text(description))
    &&& member_of(document, "TwoFactorProviders"@) matches Some(Document::Array(providers))
        && providers.len() == 1 && providers[0] == Document::Text("0"@)
    &&& member_of(document, "TwoFactorProviders2"@) matches Some(Document::Object(providers))
        && providers.len() == 1 && providers[0] == ("0"@, Document::Null)
    &&& member_of(document, "MasterPasswordPolicy"@) matches Some(Document::Object(policy))
        && policy.len() == 1 && policy[0] == ("Object"@, Document::Text("masterPasswordPolicy"@))
    &&& document matches Document::Object(members) && members.len() == 5
}

proof fn lemma_refusal_body(document: Document, description: Seq<char>)
    requires
        document == two_factor_refusal(description),
    ensures
        is_refusal_body(document, description),
{
    reveal_strlit("TwoFactorProviders");
    reveal_strlit("TwoFactorProviders2");
    reveal_strlit("MasterPasswordPolicy");
    reveal_strlit("error");
    reveal_strlit("error_description");
    reveal_strlit("0");
    let members = document->Object_0;
    assert("TwoFactorProviders"@.len() == 18 && "TwoFactorProviders2"@.len() == 19
        && "MasterPasswordPolicy"@.len() == 20 && "error"@.len() == 5 && "error_description"@.len()
        == 17);
    lemma_member_at(members, "TwoFactorProviders"@, 0);
    lemma_member_at(members, "TwoFactorProviders2"@, 1);
    lemma_member_at(members, "MasterPasswordPolicy"@, 2);
    lemma_member_at(members, "error"@, 3);
    lemma_member_at(members, "error_description"@, 4);
    assert(decimal(0) =~= "0"@);
}

// ---- the first step ----

/// A request is read by its kind of grant alone, and what that needs; no other field of the form
/// plays a part, nor what is told. A password needs a user name and a password, and the account is
/// looked up by the name in lower case. A renewal needs a refresh token, in the form or else in its
/// cookie, and the server's key; the token is then verified with it. There is no other kind.
pub proof fn law_request_is_read_by_its_grant(
    headers: Map<Seq<char>, Seq<Seq<u8>>>,
    form: TokenForm,
    keys: Keys,
    event: Event,
)
    ensures
        ({
            let v = token_decision(headers, form, keys, TokenStage::Start, event);
            &&& form.grant_type == "password"@ ==> match (form.username, form.password) {
                (None, _) => is_refused(v, Failure::BadRequest("Missing username"@)),
                (_, None) => is_refused(v, Failure::BadRequest("Missing password"@)),
                (Some(username), Some(_)) => wants_statement(
                    v,
                    USER_BY_EMAIL@,
                    Seq::empty().push(Bound::Text(lowercase(username))),
                    Fetch::FirstUser,
                ),
            }
            &&& form.grant_type == "refresh_token"@ ==> match (
                form.refresh_token,
                request_cookie(headers, "bw_refresh_token"@),
                keys.jwt_refresh_secret,
            ) {
                (None, None, _) => is_refused(v, Failure::BadRequest("Missing refresh_token"@)),
                (_, _, Err(message)) => is_refused(v, Failure::Worker(message)),
                (Some(token), _, Ok(secret)) => v == (Verdict::Refresh { token, secret }),
                (None, Some(token), Ok(secret)) => v == (Verdict::Refresh { token, secret }),
            }
            &&& form.grant_type != "password"@ && form.grant_type != "refresh_token"@
                ==> is_refused(v, Failure::BadRequest("Unsupported grant_type"@))
        }),
{
    reveal_strlit("password");
    reveal_strlit("refresh_token");
    assert("password"@.len() != "refresh_token"@.len());
}

/// A refresh token that is shown is handed to be verified with the server's key, whatever else the
/// form holds; and it is called invalid only where verifying it gave nothing.
pub proof fn law_shown_refresh_token_is_verified(
    headers: Map<Seq<char>, Seq<Seq<u8>>>,
    form: TokenForm,
    keys: Keys,
    event: Event,
    token: Seq<char>,
    secret: Seq<char>,
    payload: Option<Seq<char>>,
)
    requires
        form.grant_type == "refresh_token"@,
        presented_refresh_token(headers, form) == Some(token),
        keys.jwt_refresh_secret == Ok::<Seq<char>, Seq<char>>(secret),
    ensures
        token_decision(headers, form, keys, TokenStage::Start, event) == (Verdict::Refresh {
            token,
            secret,
        }),
        fails(refresh_move(payload), Failure::Unauthorized("Invalid refresh token"@)) <==> payload
            is None,
        payload matches Some(p) ==> asks(refresh_move(payload), Work::ReadClaims { payload: p }),
{
    law_request_is_read_by_its_grant(headers, form, keys, event);
}

// ---- the password ----

/// What is decided of a password request once it has looked for the account, and is told `found`.
pub open spec fn after_account(
    headers: Map<Seq<char>, Seq<Seq<u8>>>,
    form: TokenForm,
    keys: Keys,
    e: Event,
    found: Event,
) -> Verdict {
    decided(
        token_decision(headers, form, keys, TokenStage::Start, e),
        headers,
        form,
        keys,
        found,
    )
}

/// A password request goes on exactly where an account is found whose hash is the password of the
/// form: whether the account has a second factor is asked next. Without an account, and with a wrong
/// password, the credentials are invalid.
pub proof fn law_password_is_compared(
    headers: Map<Seq<char>, Seq<Seq<u8>>>,
    form: TokenForm,
    keys: Keys,
    e: Event,
    found: Event,
)
    requires
        form.grant_type == "password"@,
        form.username is Some,
        form.password is Some,
    ensures
        ({
            let v = after_account(headers, form, keys, e, found);
            match found {
                Event::User(AccountRow::Found(user)) => if form.password->0
                    == user.master_password_hash {
                    wants(v, Work::AuthenticatorEnabled { user_id: user.id })
                } else {
                    is_refused(v, Failure::Unauthorized("Invalid credentials"@))
                },
                Event::User(AccountRow::Missing) => is_refused(
                    v,
                    Failure::Unauthorized("Invalid credentials"@),
                ),
                Event::Failed(QueryFailure::Bind(message)) => is_refused(
                    v,
                    Failure::Worker(message),
                ),
                Event::Failed(_) => is_refused(v, Failure::Unauthorized("Invalid credentials"@)),
                _ => is_refused(v, Failure::Internal),
            }
        }),
{
}

/// A password request whose password was right.
pub open spec fn is_identified(form: TokenForm, user: Account) -> bool {
    &&& form.grant_type == "password"@
    &&& form.username is Some
    &&& form.password == Some(user.master_password_hash)
}

/// What is decided of a password request whose password was right, when it is told `enabled`.
pub open spec fn after_enabled(
    headers: Map<Seq<char>, Seq<Seq<u8>>>,
    form: TokenForm,
    keys: Keys,
    user: Account,
    e: Event,
    enabled: Event,
) -> Verdict {
    decided(
        after_account(headers, form, keys, e, Event::User(AccountRow::Found(user))),
        headers,
        form,
        keys,
        enabled,
    )
}

/// The remembered token that a request keeps in its cookies.
pub open spec fn kept_token(headers: Map<Seq<char>, Seq<Seq<u8>>>) -> Option<Seq<char>> {
    match request_cookie(headers, "twoFactorRemember"@) {
        Some(t) => Some(t),
        None => request_cookie(headers, "TwoFactorRemember"@),
    }
}

/// Without a second factor a right password is enough, whatever else the request holds. With one,
/// the kind that the form says decides: the authenticator with a code, a remembered token that the
/// form brings for a device, or, where the form says nothing of a second factor, one that the
/// device keeps in a cookie. With anything else a second factor is asked for.
pub proof fn law_second_factor_is_chosen(
    headers: Map<Seq<char>, Seq<Seq<u8>>>,
    form: TokenForm,
    keys: Keys,
    user: Account,
    e: Event,
    enabled: Event,
)
    requires
        is_identified(form, user),
    ensures
        ({
            let v = after_enabled(headers, form, keys, user, e, enabled);
            match enabled {
                Event::Enabled(Ok(false)) => v == (Verdict::Grant { user, remember: false }),
                Event::Enabled(Ok(true)) => match (
                    form.two_factor_provider,
                    form.two_factor_token,
                    form.device_identifier,
                    kept_token(headers),
                ) {
                    (None, None, Some(_), Some(_)) => wants_statement(
                        v,
                        CREATE_DEVICES@,
                        Seq::empty(),
                        Fetch::Nothing,
                    ),
                    (Some(provider), Some(_), device, _) => if provider == 0 {
                        wants(v, Work::AuthenticatorSecret { user_id: user.id })
                    } else if provider == 5 && device is Some {
                        wants_statement(v, CREATE_DEVICES@, Seq::empty(), Fetch::Nothing)
                    } else {
                        is_told_of_factor(v, "Two factor required."@)
                    },
                    _ => is_told_of_factor(v, "Two factor required."@),
                },
                Event::Enabled(Err(failure)) => is_refused(v, failure),
                _ => is_refused(v, Failure::Internal),
            }
        }),
{
    lemma_refusal_body(two_factor_required().body, "Two factor required."@);
}

/// A code is verified with the user's stored secret, and with the key for it: for every form that
/// brings one, whatever else it holds. A right code is granted, with a remember token exactly where
/// the form wants one and says which device it is; a wrong one is answered as such.
pub proof fn law_code_is_verified(
    headers: Map<Seq<char>, Seq<Seq<u8>>>,
    form: TokenForm,
    keys: Keys,
    user: Account,
    code: Seq<char>,
    e: Event,
    secret: Event,
    verified: Event,
)
    requires
        is_identified(form, user),
        form.two_factor_provider == Some(0i32),
        form.two_factor_token == Some(code),
    ensures
        ({
            let third = after_enabled(headers, form, keys, user, e, Event::Enabled(Ok(true)));
            let fourth = decided(third, headers, form, keys, secret);
            let fifth = decided(fourth, headers, form, keys, verified);
            &&& wants(third, Work::AuthenticatorSecret { user_id: user.id })
            &&& match secret {
                Event::Secret(Ok(Some(secret_enc))) => {
                    &&& wants(
                        fourth,
                        Work::VerifyTotp {
                            key: keys.two_factor_enc_key,
                            user_id: user.id,
                            secret_enc,
                            code,
                        },
                    )
                    &&& match verified {
                        Event::Totp(Ok(true)) => fifth == (Verdict::Grant {
                            user,
                            remember: form.two_factor_remember == Some(1i32)
                                && form.device_identifier is Some,
                        }),
                        Event::Totp(Ok(false)) => is_told_of_factor(
                            fifth,
                            "Invalid two factor token."@,
                        ),
                        Event::Totp(Err(failure)) => is_refused(fifth, failure),
                        _ => is_refused(fifth, Failure::Internal),
                    }
                },
                Event::Secret(Err(failure)) => is_refused(fourth, failure),
                _ => is_refused(fourth, Failure::Internal),
            }
        }),
{
    lemma_refusal_body(invalid_two_factor().body, "Invalid two factor token."@);
}

/// Whether a request shows `presented` as a remembered token for `device_identifier`: in the form,
/// or in a cookie where the form says nothing of a second factor.
pub open spec fn shows_remembered(
    headers: Map<Seq<char>, Seq<Seq<u8>>>,
    form: TokenForm,
    device_identifier: Seq<char>,
    presented: Seq<char>,
) -> bool {
    &&& form.device_identifier == Some(device_identifier)
    &&& {
        ||| form.two_factor_provider == Some(5i32) && form.two_factor_token == Some(presented)
        ||| form.two_factor_provider is None && form.two_factor_token is None && kept_token(headers)
            == Some(presented)
    }
}

/// A remembered token, from the form or a cookie, is compared by its digest, white space around it
/// aside, with what is stored for the user and the device, once the table is there. The right one is
/// granted, with a new remember token exactly where it came in a cookie and the form wants one; with
/// any other, or none stored, a second factor is asked for.
pub proof fn law_remembered_token_is_compared(
    headers: Map<Seq<char>, Seq<Seq<u8>>>,
    form: TokenForm,
    keys: Keys,
    user: Account,
    device_identifier: Seq<char>,
    presented: Seq<char>,
    e: Event,
    created: Event,
    altered: Event,
    stored: Event,
)
    requires
        is_identified(form, user),
        shows_remembered(headers, form, device_identifier, presented),
    ensures
        ({
            let third = after_enabled(headers, form, keys, user, e, Event::Enabled(Ok(true)));
            let fourth = decided(third, headers, form, keys, created);
            let fifth = decided(fourth, headers, form, keys, altered);
            let sixth = decided(fifth, headers, form, keys, stored);
            &&& wants_statement(third, CREATE_DEVICES@, Seq::empty(), Fetch::Nothing)
            &&& created is Failed ==> is_refused(fourth, Failure::Database)
            &&& !(created is Failed) ==> {
                &&& wants_statement(fourth, ALTER_DEVICES@, Seq::empty(), Fetch::Nothing)
                &&& wants_statement(
                    fifth,
                    REMEMBERED_HASH@,
                    Seq::empty().push(Bound::Text(user.id)).push(Bound::Text(device_identifier)),
                    Fetch::FirstRow,
                )
                &&& match stored {
                    Event::Row(Some(row)) => match text_in(row, "remember_token_hash"@) {
                        Some(digest) => if digest == sha256_hex_of(trimmed(presented)) {
                            sixth == (Verdict::Grant {
                                user,
                                remember: form.two_factor_remember == Some(1i32)
                                    && form.two_factor_provider is None,
                            })
                        } else {
                            is_told_of_factor(sixth, "Two factor required."@)
                        },
                        None => is_told_of_factor(sixth, "Two factor required."@),
                    },
                    Event::Row(None) => is_told_of_factor(sixth, "Two factor required."@),
                    Event::Failed(f) => is_refused_for(sixth, f),
                    _ => is_refused(sixth, Failure::Internal),
                }
            }
        }),
{
    lemma_refusal_body(two_factor_required().body, "Two factor required."@);
}

// ---- after a grant ----

/// A grant, in full: tokens are issued for the user, or a key is missing, the access token's first.
/// A request that says no device is answered with them at once. For one that does, the table is
/// made, and the device is noted for the user, under its identifier.
pub proof fn law_grant_in_full(
    headers: Map<Seq<char>, Seq<Seq<u8>>>,
    form: TokenForm,
    keys: Keys,
    user: Account,
    remember: bool,
    next: Move<TokenStage>,
    created: Event,
    altered: Event,
)
    requires
        carries_out(form, keys, Verdict::Grant { user, remember }, next),
    ensures
        keys.jwt_secret matches Err(message) ==> fails(next, Failure::Worker(message)),
        keys.jwt_secret is Ok ==> (keys.jwt_refresh_secret matches Err(message) ==> fails(
            next,
            Failure::Worker(message),
        )),
        keys.jwt_secret is Ok && keys.jwt_refresh_secret is Ok ==> exists|
            issue: Issue,
            remember_token: Option<Seq<char>>,
            now: Timestamp,
        | #[trigger]
            is_granted(form, keys, user, remember, issue, remember_token, now) && (
            match form.device_identifier {
                None => next == Move::<TokenStage>::Answer(token_answer(issue, remember_token)),
                Some(device_identifier) => {
                    let second = decided(Verdict::Next(next), headers, form, keys, created);
                    let third = decided(second, headers, form, keys, altered);
                    &&& asks_for(next, CREATE_DEVICES@, Seq::empty(), Fetch::Nothing)
                    &&& created is Failed ==> is_refused(second, Failure::Database)
                    &&& !(created is Failed) ==> wants_statement(
                        second,
                        ALTER_DEVICES@,
                        Seq::empty(),
                        Fetch::Nothing,
                    ) && third == (Verdict::Note {
                        user_id: user.id,
                        device_identifier,
                        issue,
                        remember_token,
                    })
                },
            }),
{
    let (t, now) = choose|t: Option<Seq<char>>, now: Timestamp|
        drawn(remember, t) && now.dated() && issues_well(user, keys, now) && next
            == #[trigger] grant_move(form, keys, user, t, now);
    if let Ok(issue) = tokens_for(user, keys, now) {
        assert(is_granted(form, keys, user, remember, issue, t, now));
    }
}

/// Tokens were issued for `user` at a time, each signed with its own key and naming the user, and a
/// remember token was drawn exactly where it is wanted.
pub open spec fn is_granted(
    form: TokenForm,
    keys: Keys,
    user: Account,
    remember: bool,
    issue: Issue,
    remember_token: Option<Seq<char>>,
    now: Timestamp,
) -> bool {
    &&& now.dated()
    &&& is_issue(issue, user, keys, now)
    &&& remember_token is Some <==> remember
    &&& remember_token matches Some(t) ==> is_remember_token(t)
}

/// A device is noted, in full: a fresh identifier, the user, the device's identifier, the name and
/// the type that the form says, the digest of the remember token, and the time, twice. Then the
/// tokens are sent; or the request fails as the statement did.
pub proof fn law_note_in_full(
    headers: Map<Seq<char>, Seq<Seq<u8>>>,
    form: TokenForm,
    keys: Keys,
    user_id: Seq<char>,
    device_identifier: Seq<char>,
    issue: Issue,
    remember_token: Option<Seq<char>>,
    next: Move<TokenStage>,
    saved: Event,
)
    requires
        carries_out(
            form,
            keys,
            Verdict::Note { user_id, device_identifier, issue, remember_token },
            next,
        ),
    ensures
        exists|id: Seq<char>, now: Timestamp| #[trigger]
            is_fresh(id, now) && asks_for(
                next,
                SAVE_DEVICE@,
                Seq::empty().push(Bound::Text(id)).push(Bound::Text(user_id)).push(
                    Bound::Text(device_identifier),
                ).push(
                    match form.device_name {
                        Some(name) => Bound::Text(name),
                        None => Bound::Null,
                    },
                ).push(
                    match form.device_type {
                        Some(n) => Bound::Integer(n as int),
                        None => Bound::Null,
                    },
                ).push(
                    match remember_token {
                        Some(t) => Bound::Text(sha256_hex_of(t)),
                        None => Bound::Null,
                    },
                ).push(Bound::Text(now.text())).push(Bound::Text(now.text())),
                Fetch::Nothing,
            ),
        ({
            let v = decided(Verdict::Next(next), headers, form, keys, saved);
            match saved {
                Event::Done => v == Verdict::Next(
                    Move::<TokenStage>::Answer(token_answer(issue, remember_token)),
                ),
                Event::Failed(f) => is_refused_for(v, f),
                _ => is_refused(v, Failure::Internal),
            }
        }),
{
    let (id, now) = choose|id: Seq<char>, now: Timestamp|
        random_uuid(id) && now.dated() && next == Move::<TokenStage>::Perform(
            Work::Query(
                #[trigger] save_device(
                    form,
                    user_id,
                    device_identifier,
                    remember_token,
                    id,
                    now,
                ),
            ),
            TokenStage::SavingDevice { issue, remember_token },
        );
    assert(is_fresh(id, now));
}

/// An identifier and a time that were drawn for a row.
pub open spec fn is_fresh(id: Seq<char>, now: Timestamp) -> bool {
    random_uuid(id) && now.dated()
}

/// A renewal whose refresh token was verified, in full: its claims are read, and without any it is
/// invalid; the account that they name is looked up, and without any the user is invalid; and tokens
/// are issued for that account.
pub proof fn law_renewal_in_full(
    headers: Map<Seq<char>, Seq<Seq<u8>>>,
    form: TokenForm,
    keys: Keys,
    payload: Seq<char>,
    read: Event,
    found: Event,
)
    ensures
        ({
            let first = Verdict::Next(refresh_move(Some(payload)));
            let second = decided(first, headers, form, keys, read);
            let third = decided(second, headers, form, keys, found);
            &&& wants(first, Work::ReadClaims { payload })
            &&& match read {
                Event::Claims(Some(claims)) => {
                    &&& wants_statement(
                        second,
                        USER_BY_ID@,
                        Seq::empty().push(Bound::Text(claims.sub)),
                        Fetch::FirstUser,
                    )
                    &&& match found {
                        Event::User(AccountRow::Found(user)) => third == (Verdict::Renew { user }),
                        Event::User(AccountRow::Missing) => is_refused(
                            third,
                            Failure::Unauthorized("Invalid user"@),
                        ),
                        Event::Failed(QueryFailure::Bind(message)) => is_refused(
                            third,
                            Failure::Worker(message),
                        ),
                        Event::Failed(_) => is_refused(
                            third,
                            Failure::Unauthorized("Invalid user"@),
                        ),
                        _ => is_refused(third, Failure::Internal),
                    }
                },
                Event::Claims(None) => is_refused(
                    second,
                    Failure::Unauthorized("Invalid refresh token"@),
                ),
                _ => is_refused(second, Failure::Internal),
            }
        }),
{
}

/// Renewed tokens are issued for the account that was found, without a remember token; or a key is
/// missing, the access token's first.
pub proof fn law_renewal_is_answered(
    form: TokenForm,
    keys: Keys,
    user: Account,
    next: Move<TokenStage>,
)
    requires
        carries_out(form, keys, Verdict::Renew { user }, next),
    ensures
        keys.jwt_secret matches Err(message) ==> fails(next, Failure::Worker(message)),
        keys.jwt_secret is Ok ==> (keys.jwt_refresh_secret matches Err(message) ==> fails(
            next,
            Failure::Worker(message),
        )),
        keys.jwt_secret is Ok && keys.jwt_refresh_secret is Ok ==> exists|
            issue: Issue,
            now: Timestamp,
        | #[trigger]
            is_granted(form, keys, user, false, issue, None, now) && next == Move::<
                TokenStage,
            >::Answer(token_answer(issue, None)),
{
    let now = choose|now: Timestamp|
        now.dated() && issues_well(user, keys, now) && next == Move::<TokenStage>::Answer(
            #[trigger] renew_answer(keys, user, now),
        );
    if let Ok(issue) = tokens_for(user, keys, now) {
        assert(is_granted(form, keys, user, false, issue, None, now));
    }
}

// ---- what the client is told ----

proof fn lemma_told_members(members: Seq<(Seq<char>, Document)>)
    requires
        members.len() == 16 || members.len() == 17,
        members[0].0 == "ForcePasswordReset"@,
        members[1].0 == "Kdf"@,
        members[2].0 == "KdfIterations"@,
        members[3].0 == "KdfMemory"@,
        members[4].0 == "KdfParallelism"@,
        members[5].0 == "Key"@,
        members[6].0 == "MasterPasswordPolicy"@,
        members[7].0 == "PrivateKey"@,
        members[8].0 == "ResetMasterPassword"@,
        members[9].0 == "UserDecryptionOptions"@,
        members[10].0 == "AccountKeys"@,
        members[11].0 == "access_token"@,
        members[12].0 == "expires_in"@,
        members[13].0 == "refresh_token"@,
        members[14].0 == "scope"@,
        members[15].0 == "token_type"@,
    ensures
        member(members, "ForcePasswordReset"@) == Some(members[0].1),
        member(members, "Kdf"@) == Some(members[1].1),
        member(members, "KdfIterations"@) == Some(members[2].1),
        member(members, "KdfMemory"@) == Some(members[3].1),
        member(members, "KdfParallelism"@) == Some(members[4].1),
        member(members, "Key"@) == Some(members[5].1),
        member(members, "MasterPasswordPolicy"@) == Some(members[6].1),
        member(members, "PrivateKey"@) == Some(members[7].1),
        member(members, "ResetMasterPassword"@) == Some(members[8].1),
        member(members, "UserDecryptionOptions"@) == Some(members[9].1),
        member(members, "AccountKeys"@) == Some(members[10].1),
        member(members, "access_token"@) == Some(members[11].1),
        member(members, "expires_in"@) == Some(members[12].1),
        member(members, "refresh_token"@) == Some(members[13].1),
        member(members, "scope"@) == Some(members[14].1),
        member(members, "token_type"@) == Some(members[15].1),
{
    reveal_strlit("ForcePasswordReset");
    reveal_strlit("Kdf");
    reveal_strlit("KdfIterations");
    reveal_strlit("KdfMemory");
    reveal_strlit("KdfParallelism");
    reveal_strlit("Key");
    reveal_strlit("MasterPasswordPolicy");
    reveal_strlit("PrivateKey");
    reveal_strlit("ResetMasterPassword");
    reveal_strlit("UserDecryptionOptions");
    reveal_strlit("AccountKeys");
    reveal_strlit("access_token");
    reveal_strlit("expires_in");
    reveal_strlit("refresh_token");
    reveal_strlit("scope");
    reveal_strlit("token_type");
    reveal_strlit("TwoFactorToken");
    assert("ForcePasswordReset"@.len() == 18 && "Kdf"@.len() == 3 && "KdfIterations"@.len() == 13 && "KdfMemory"@.len() == 9 && "KdfParallelism"@.len() == 14 && "Key"@.len() == 3 && "MasterPasswordPolicy"@.len() == 20 && "PrivateKey"@.len() == 10 && "ResetMasterPassword"@.len() == 19 && "UserDecryptionOptions"@.len() == 21 && "AccountKeys"@.len() == 11 && "access_token"@.len() == 12 && "expires_in"@.len() == 10 && "refresh_token"@.len() == 13 && "scope"@.len() == 5 && "token_type"@.len() == 10 && "TwoFactorToken"@.len() == 14);
    assert("Kdf"@[1] == 'd' && "Key"@[1] == 'e');
    assert("KdfIterations"@[0] == 'K');
    assert("refresh_token"@[0] == 'r');
    assert("PrivateKey"@[0] == 'P');
    assert("expires_in"@[0] == 'e');
    assert("token_type"@[0] == 't');
    assert("KdfParallelism"@[0] == 'K');
    assert("TwoFactorToken"@[0] == 'T');
    lemma_member_at(members, "ForcePasswordReset"@, 0);
    lemma_member_at(members, "Kdf"@, 1);
    lemma_member_at(members, "KdfIterations"@, 2);
    lemma_member_at(members, "KdfMemory"@, 3);
    lemma_member_at(members, "KdfParallelism"@, 4);
    lemma_member_at(members, "Key"@, 5);
    lemma_member_at(members, "MasterPasswordPolicy"@, 6);
    lemma_member_at(members, "PrivateKey"@, 7);
    lemma_member_at(members, "ResetMasterPassword"@, 8);
    lemma_member_at(members, "UserDecryptionOptions"@, 9);
    lemma_member_at(members, "AccountKeys"@, 10);
    lemma_member_at(members, "access_token"@, 11);
    lemma_member_at(members, "expires_in"@, 12);
    lemma_member_at(members, "refresh_token"@, 13);
    lemma_member_at(members, "scope"@, 14);
    lemma_member_at(members, "token_type"@, 15);
}

/// What an object holds under a name, null where it holds nothing.
pub open spec fn held(document: Document, name: Seq<char>) -> Document {
    match member_of(document, name) {
        Some(d) => d,
        None => Document::Null,
    }
}

/// Whether an object has this many members.
pub open spec fn has_members(document: Document, n: nat) -> bool {
    document matches Document::Object(members) && members.len() == n
}

/// Whether a document tells the client what it needs of this account to derive the master key and
/// to unlock the vault: how the key is derived, the account's keys as they are stored, and the
/// address as the salt.
pub open spec fn tells_of_account(document: Document, user: Account) -> bool {
    let options = held(document, "UserDecryptionOptions"@);
    let unlock = held(options, "MasterPasswordUnlock"@);
    let kdf = held(unlock, "Kdf"@);
    let key_pair = held(document, "AccountKeys"@);
    let pair = held(key_pair, "publicKeyEncryptionKeyPair"@);
    &&& member_of(document, "Kdf"@) == Some(Document::Integer(user.kdf_type as int))
    &&& member_of(document, "KdfIterations"@) == Some(
        Document::Integer(user.kdf_iterations as int),
    )
    &&& member_of(document, "KdfMemory"@) == Some(Document::Null)
    &&& member_of(document, "KdfParallelism"@) == Some(Document::Null)
    &&& member_of(document, "Key"@) == Some(Document::Text(user.key))
    &&& member_of(document, "PrivateKey"@) == Some(Document::Text(user.private_key))
    &&& has_members(options, 3)
    &&& member_of(options, "HasMasterPassword"@) == Some(Document::Bool(true))
    &&& member_of(options, "Object"@) == Some(Document::Text("userDecryptionOptions"@))
    &&& has_members(unlock, 4)
    &&& member_of(unlock, "MasterKeyEncryptedUserKey"@) == Some(Document::Text(user.key))
    &&& member_of(unlock, "MasterKeyWrappedUserKey"@) == Some(Document::Text(user.key))
    &&& member_of(unlock, "Salt"@) == Some(Document::Text(user.email))
    &&& has_members(kdf, 4)
    &&& member_of(kdf, "KdfType"@) == Some(Document::Integer(user.kdf_type as int))
    &&& member_of(kdf, "Iterations"@) == Some(Document::Integer(user.kdf_iterations as int))
    &&& member_of(kdf, "Memory"@) == Some(Document::Null)
    &&& member_of(kdf, "Parallelism"@) == Some(Document::Null)
    &&& has_members(key_pair, 2)
    &&& member_of(key_pair, "Object"@) == Some(Document::Text("privateKeys"@))
    &&& has_members(pair, 3)
    &&& member_of(pair, "wrappedPrivateKey"@) == Some(Document::Text(user.private_key))
    &&& member_of(pair, "publicKey"@) == Some(Document::Text(user.public_key))
    &&& member_of(pair, "Object"@) == Some(Document::Text("publicKeyEncryptionKeyPair"@))
}

/// Whether a document tells the client of the tokens: what they are, how long the access token is
/// good, and how they are used.
pub open spec fn tells_of_tokens(document: Document, issue: Issue) -> bool {
    &&& member_of(document, "access_token"@) == Some(Document::Text(issue.access_token))
    &&& member_of(document, "refresh_token"@) == Some(Document::Text(issue.refresh_token))
    &&& member_of(document, "expires_in"@) == Some(Document::Integer(2 * 60 * 60int))
    &&& member_of(document, "scope"@) == Some(Document::Text("api offline_access"@))
    &&& member_of(document, "token_type"@) == Some(Document::Text("Bearer"@))
    &&& member_of(document, "ForcePasswordReset"@) == Some(Document::Bool(false))
    &&& member_of(document, "ResetMasterPassword"@) == Some(Document::Bool(false))
    &&& has_members(held(document, "MasterPasswordPolicy"@), 1)
    &&& member_of(held(document, "MasterPasswordPolicy"@), "Object"@) == Some(
        Document::Text("masterPasswordPolicy"@),
    )
}

proof fn lemma_account_parts(user: Account)
    ensures
        ({
            let options = decryption_options(user);
            let unlock = master_password_unlock(user);
            let kdf = kdf_settings(user);
            let key_pair = account_keys(user);
            let pair = held(key_pair, "publicKeyEncryptionKeyPair"@);
            &&& has_members(options, 3)
            &&& member_of(options, "HasMasterPassword"@) == Some(Document::Bool(true))
            &&& member_of(options, "Object"@) == Some(Document::Text("userDecryptionOptions"@))
            &&& member_of(options, "MasterPasswordUnlock"@) == Some(unlock)
            &&& has_members(unlock, 4)
            &&& member_of(unlock, "Kdf"@) == Some(kdf)
            &&& member_of(unlock, "MasterKeyEncryptedUserKey"@) == Some(Document::Text(user.key))
            &&& member_of(unlock, "MasterKeyWrappedUserKey"@) == Some(Document::Text(user.key))
            &&& member_of(unlock, "Salt"@) == Some(Document::Text(user.email))
            &&& has_members(kdf, 4)
            &&& member_of(kdf, "KdfType"@) == Some(Document::Integer(user.kdf_type as int))
            &&& member_of(kdf, "Iterations"@) == Some(Document::Integer(user.kdf_iterations as int))
            &&& member_of(kdf, "Memory"@) == Some(Document::Null)
            &&& member_of(kdf, "Parallelism"@) == Some(Document::Null)
            &&& has_members(key_pair, 2)
            &&& member_of(key_pair, "Object"@) == Some(Document::Text("privateKeys"@))
            &&& has_members(pair, 3)
            &&& member_of(pair, "wrappedPrivateKey"@) == Some(Document::Text(user.private_key))
            &&& member_of(pair, "publicKey"@) == Some(Document::Text(user.public_key))
            &&& member_of(pair, "Object"@) == Some(Document::Text("publicKeyEncryptionKeyPair"@))
        }),
{
    reveal_strlit("HasMasterPassword");
    reveal_strlit("MasterPasswordUnlock");
    reveal_strlit("Object");
    reveal_strlit("Kdf");
    reveal_strlit("MasterKeyEncryptedUserKey");
    reveal_strlit("MasterKeyWrappedUserKey");
    reveal_strlit("Salt");
    reveal_strlit("KdfType");
    reveal_strlit("Iterations");
    reveal_strlit("Memory");
    reveal_strlit("Parallelism");
    reveal_strlit("publicKeyEncryptionKeyPair");
    reveal_strlit("wrappedPrivateKey");
    reveal_strlit("publicKey");
    assert("HasMasterPassword"@.len() == 17 && "MasterPasswordUnlock"@.len() == 20 && "Object"@.len()
        == 6 && "Kdf"@.len() == 3 && "MasterKeyEncryptedUserKey"@.len() == 25
        && "MasterKeyWrappedUserKey"@.len() == 23 && "Salt"@.len() == 4 && "KdfType"@.len() == 7
        && "Iterations"@.len() == 10 && "Memory"@.len() == 6 && "Parallelism"@.len() == 11
        && "publicKeyEncryptionKeyPair"@.len() == 26 && "wrappedPrivateKey"@.len() == 17
        && "publicKey"@.len() == 9);
    let options = decryption_options(user)->Object_0;
    lemma_member_at(options, "HasMasterPassword"@, 0);
    lemma_member_at(options, "MasterPasswordUnlock"@, 1);
    lemma_member_at(options, "Object"@, 2);
    let unlock = master_password_unlock(user)->Object_0;
    lemma_member_at(unlock, "Kdf"@, 0);
    lemma_member_at(unlock, "MasterKeyEncryptedUserKey"@, 1);
    lemma_member_at(unlock, "MasterKeyWrappedUserKey"@, 2);
    lemma_member_at(unlock, "Salt"@, 3);
    let kdf = kdf_settings(user)->Object_0;
    lemma_member_at(kdf, "KdfType"@, 0);
    lemma_member_at(kdf, "Iterations"@, 1);
    lemma_member_at(kdf, "Memory"@, 2);
    lemma_member_at(kdf, "Parallelism"@, 3);
    let key_pair = account_keys(user)->Object_0;
    lemma_member_at(key_pair, "publicKeyEncryptionKeyPair"@, 0);
    lemma_member_at(key_pair, "Object"@, 1);
    let pair = key_pair[0].1->Object_0;
    lemma_member_at(pair, "wrappedPrivateKey"@, 0);
    lemma_member_at(pair, "publicKey"@, 1);
    lemma_member_at(pair, "Object"@, 2);
}

/// What a client is told that is sent tokens, in full: for every account the account's own settings
/// and keys, the tokens, the remember token exactly where there is one, and nothing else.
pub proof fn law_client_is_told_in_full(
    user: Account,
    keys: Keys,
    now: Timestamp,
    issue: Issue,
    remember_token: Option<Seq<char>>,
)
    requires
        tokens_for(user, keys, now) == Ok::<Issue, Failure>(issue),
    ensures
        tells_of_account(token_body(issue, remember_token), user),
        tells_of_tokens(token_body(issue, remember_token), issue),
        member_of(token_body(issue, remember_token), "TwoFactorToken"@) == (match remember_token {
            Some(t) => Some(Document::Text(t)),
            None => None,
        }),
        has_members(
            token_body(issue, remember_token),
            if remember_token is Some {
                17
            } else {
                16
            },
        ),
{
    let members = token_body(issue, remember_token)->Object_0;
    assert forall|i: int| 0 <= i < 16 implies #[trigger] members[i] == issue.response[i] by {}
    lemma_told_members(members);
    lemma_account_parts(user);
    law_body_holds_the_tokens(user, keys, now, issue, remember_token);
    reveal_strlit("Object");
    lemma_member_at(empty_policy()->Object_0, "Object"@, 0);
}

/// The answer with tokens, in full: the tokens' cookies, each for as long as its token is good and
/// for this site alone, over secure connections and out of reach of scripts; and, before them, the
/// remember token's, under both spellings of its name.
pub proof fn law_token_answer_in_full(issue: Issue, remember_token: Option<Seq<char>>)
    requires
        deliverable(issue, remember_token),
    ensures
        token_answer(issue, remember_token) matches Ok(r) && r.status == 200 && r.body
            == token_body(issue, remember_token) && r.headers == Map::<
            Seq<char>,
            Seq<Seq<u8>>,
        >::empty().insert(
            "set-cookie"@,
            (match remember_token {
                Some(t) => Seq::empty().push(
                    encode_utf8(
                        "twoFactorRemember="@ + t
                            + "; Max-Age=2592000; Path=/; HttpOnly; Secure; SameSite=Lax"@,
                    ),
                ).push(
                    encode_utf8(
                        "TwoFactorRemember="@ + t
                            + "; Max-Age=2592000; Path=/; HttpOnly; Secure; SameSite=Lax"@,
                    ),
                ),
                None => Seq::empty(),
            }).push(
                encode_utf8(
                    "bw_access_token="@ + issue.access_token
                        + "; Max-Age=7200; Path=/; HttpOnly; Secure; SameSite=Lax"@,
                ),
            ).push(
                encode_utf8(
                    "bw_refresh_token="@ + issue.refresh_token
                        + "; Max-Age=2592000; Path=/; HttpOnly; Secure; SameSite=Lax"@,
                ),
            ),
        ),
{
    law_issued_tokens_are_sent(issue, remember_token);
    lemma_ages();
    reveal_strlit("=");
    reveal_strlit("; Max-Age=");
    reveal_strlit("; Path=/; HttpOnly; Secure; SameSite=Lax");
    reveal_strlit("; Max-Age=7200; Path=/; HttpOnly; Secure; SameSite=Lax");
    reveal_strlit("; Max-Age=2592000; Path=/; HttpOnly; Secure; SameSite=Lax");
    let two_hours = "; Max-Age="@ + decimal(7200) + "; Path=/; HttpOnly; Secure; SameSite=Lax"@;
    let thirty_days = "; Max-Age="@ + decimal(2592000)
        + "; Path=/; HttpOnly; Secure; SameSite=Lax"@;
    assert(two_hours =~= "; Max-Age=7200; Path=/; HttpOnly; Secure; SameSite=Lax"@);
    assert(thirty_days =~= "; Max-Age=2592000; Path=/; HttpOnly; Secure; SameSite=Lax"@);
    reveal_strlit("bw_access_token");
    reveal_strlit("bw_access_token=");
    assert("bw_access_token"@ + "="@ =~= "bw_access_token="@);
    law_cookie_is_sent_as_given("bw_access_token"@, issue.access_token, 7200);
    reveal_strlit("bw_refresh_token");
    reveal_strlit("bw_refresh_token=");
    assert("bw_refresh_token"@ + "="@ =~= "bw_refresh_token="@);
    law_cookie_is_sent_as_given("bw_refresh_token"@, issue.refresh_token, 2592000);
    let r = token_answer(issue, remember_token)->Ok_0;
    let lines = token_cookies(issue, remember_token);
    if let Some(t) = remember_token {
        reveal_strlit("twoFactorRemember");
        reveal_strlit("twoFactorRemember=");
        assert("twoFactorRemember"@ + "="@ =~= "twoFactorRemember="@);
        law_cookie_is_sent_as_given("twoFactorRemember"@, t, 2592000);
        reveal_strlit("TwoFactorRemember");
        reveal_strlit("TwoFactorRemember=");
        assert("TwoFactorRemember"@ + "="@ =~= "TwoFactorRemember="@);
        law_cookie_is_sent_as_given("TwoFactorRemember"@, t, 2592000);
        assert(lines.map_values(|l: Seq<char>| encode_utf8(l)) =~= Seq::empty().push(
            encode_utf8(lines[0]),
        ).push(encode_utf8(lines[1])).push(encode_utf8(lines[2])).push(encode_utf8(lines[3])));
    } else {
        assert(lines.map_values(|l: Seq<char>| encode_utf8(l)) =~= Seq::empty().push(
            encode_utf8(lines[0]),
        ).push(encode_utf8(lines[1])));
    }
}

proof fn lemma_ages()
    ensures
        decimal(7200) =~= seq!['7', '2', '0', '0'],
        decimal(2592000) =~= seq!['2', '5', '9', '2', '0', '0', '0'],
{
    reveal_with_fuel(digits_of, 8);
}

/// What a token says, in full: the account, from when and until when, and as what the user signed
/// in. Where the seconds fit in `usize` they are there as they are.
pub proof fn law_claims_in_full(user: Account, now: Timestamp, lifetime: int)
    ensures
        claims_for(user, now, lifetime) == (ClaimSet {
            sub: user.id,
            exp: (now.secs + lifetime) as usize,
            nbf: now.secs as usize,
            premium: true,
            name: if user.name is Some {
                user.name->0
            } else {
                "User"@
            },
            email: user.email,
            email_verified: true,
            amr: seq!["Application"@],
        }),
        0 <= now.secs + lifetime <= usize::MAX ==> claims_for(user, now, lifetime).exp == now.secs
            + lifetime,
        0 <= now.secs <= usize::MAX ==> claims_for(user, now, lifetime).nbf == now.secs,
{
}

/// Each token is signed with its own key, and carries the claims of its own lifetime.
pub proof fn law_tokens_are_signed_with_their_keys(
    user: Account,
    keys: Keys,
    now: Timestamp,
    issue: Issue,
    access_key: Seq<char>,
    refresh_key: Seq<char>,
)
    requires
        is_issue(issue, user, keys, now),
        keys.jwt_secret == Ok::<Seq<char>, Seq<char>>(access_key),
        keys.jwt_refresh_secret == Ok::<Seq<char>, Seq<char>>(refresh_key),
    ensures
        issue.access_token == signed_token(claims_for(user, now, 2 * 60 * 60int), access_key),
        issue.refresh_token == signed_token(
            claims_for(user, now, 30 * 24 * 60 * 60int),
            refresh_key,
        ),
        token_payload(issue.access_token, access_key) == Some(
            claims_text(claims_for(user, now, 2 * 60 * 60int)),
        ),
        token_payload(issue.refresh_token, refresh_key) == Some(
            claims_text(claims_for(user, now, 30 * 24 * 60 * 60int)),
        ),
{
}

/// A refresh token that is handed to be verified is called invalid, or the JSON that it carries under
/// the server's key is read; nothing else is done of it.
pub proof fn law_verified_token_is_read(
    form: TokenForm,
    keys: Keys,
    token: Seq<char>,
    secret: Seq<char>,
    next: Move<TokenStage>,
)
    requires
        carries_out(form, keys, Verdict::Refresh { token, secret }, next),
    ensures
        fails(next, Failure::Unauthorized("Invalid refresh token"@)) || (token_payload(
            token,
            secret,
        ) matches Some(payload) && asks(next, Work::ReadClaims { payload })),
{
    let payload = choose|payload: Option<Seq<char>>|
        verified_payload(token, secret, payload) && next == #[trigger] refresh_move(payload);
}

/// What is decided without anything to be drawn is done as it is decided.
pub proof fn law_decision_is_done(
    form: TokenForm,
    keys: Keys,
    decision: Move<TokenStage>,
    next: Move<TokenStage>,
)
    requires
        carries_out(form, keys, Verdict::Next(decision), next),
    ensures
        next == decision,
{
}

/// Cookies go out each under the one name, in their order and after UTF-8, where header values can
/// hold them all; where one cannot be held, the answer fails.
pub proof fn law_cookies_go_out_in_order(lines: Seq<Seq<char>>, body: Document, i: int)
    ensures
        (forall|j: int| 0 <= j < lines.len() ==> sendable(#[trigger] lines[j])) ==> (cookie_answer(
            lines,
            body,
        ) matches Ok(r) && r.status == 200 && r.body == body && (lines.len() == 0 ==> r.headers
            == Map::<Seq<char>, Seq<Seq<u8>>>::empty()) && (lines.len() > 0 ==> r.headers.dom()
            == Set::empty().insert("set-cookie"@) && r.headers["set-cookie"@].len() == lines.len()
            && (0 <= i < lines.len() ==> r.headers["set-cookie"@][i] == encode_utf8(lines[i])))),
        0 <= i < lines.len() && !sendable(lines[i]) ==> cookie_answer(lines, body) == Err::<
            Response,
            Failure,
        >(Failure::Internal),
{
    if lines.len() > 0 {
        assert(cookie_headers(lines).dom() =~= Set::empty().insert("set-cookie"@));
    }
}

/// A cookie goes out with the name, the value and the age that it has.
pub proof fn law_cookie_goes_out_whole(cookie: Cookie)
    ensures
        cookie.line() == cookie_line(cookie.name@, cookie.value@, cookie.max_age_seconds as int),
{
}

/// An answer is the one that is meant, and so is a failure.
pub proof fn law_answer_is_exact(r: Result<Reply, AppError>, meant: Result<Response, Failure>)
    requires
        answers(r, meant),
    ensures
        match r {
            Ok(reply) => meant == Ok::<Response, Failure>(reply@),
            Err(e) => meant == Err::<Response, Failure>(e@),
        },
{
}

} // verus!
