//! Whole requests for tokens: what every run of the token endpoint keeps to.
use vstd::prelude::*;
use crate::clock::{Timestamp, ACCESS_SECONDS, REFRESH_SECONDS};
use crate::codec::{
    is_remember_token, law_remember_token_is_plain, lowercase, random_uuid, sha256_hex_of,
};
use crate::devices::first_of;
use crate::error::Failure;
use crate::flow::{table_rank, AccountRow, Event, Move, Response, TableStage, Work};
use crate::headers::{
    carries_cookie, cookie_name, cookie_text, cookie_value, header_text, law_cookie_reads_back_among_others,
    request_cookie,
};
use crate::identity::{
    asked, carries_out, cookie_headers, drawn, factor_of, grant_move, law_issued_tokens_are_sent,
    refresh_move, renew_answer, save_device, token_answer, token_body, token_cookies,
    token_decision, two_factor_required, wants_remember, Factor, TokenStage, Verdict,
    REMEMBERED_HASH, TWO_FACTOR_PROVIDER_REMEMBER, USER_BY_EMAIL, USER_BY_ID,
};
use crate::json::{lemma_member_at, lemma_member_missing, member_of, Document};
use crate::request::TokenForm;
use crate::sql::{query, text_in, Bound, Datum, Fetch, Query};
use crate::text::{blank, law_padding_is_trimmed, trimmed};
use crate::tokens::{
    carries_claims, claims_for, claims_text, is_issue, is_token, issues_well, token_char,
    token_payload, token_response, tokens_for, verified_payload, Account, ClaimSet, Issue, Keys,
};

verus! {

broadcast use vstd::string::group_string_axioms;

/// One step of a request: what it was told, and what it did.
#[verifier::ext_equal]
pub struct Exchange {
    pub event: Event,
    pub next: Move<TokenStage>,
}

/// Where a request stands after the steps of `run`.
pub open spec fn stage_after(run: Seq<Exchange>) -> Option<TokenStage> {
    if run.len() == 0 {
        Some(TokenStage::Start)
    } else {
        match run.last().next {
            Move::Perform(_, stage) => Some(stage),
            Move::Answer(_) => None,
        }
    }
}

/// Whether the endpoint may take the steps of `run`, from the start on, whatever it is told and
/// whatever it draws.
pub open spec fn is_run(
    headers: Map<Seq<char>, Seq<Seq<u8>>>,
    form: TokenForm,
    keys: Keys,
    run: Seq<Exchange>,
) -> bool
    decreases run.len(),
{
    run.len() == 0 || {
        &&& is_run(headers, form, keys, run.drop_last())
        &&& stage_after(run.drop_last()) matches Some(stage) && carries_out(
            form,
            keys,
            token_decision(headers, form, keys, stage, run.last().event),
            run.last().next,
        )
    }
}

// ---- who is signed in ----

/// Looks an account up by its address.
pub open spec fn account_by_address(username: Seq<char>) -> Query {
    query(USER_BY_EMAIL@, Fetch::FirstUser).bind(Bound::Text(lowercase(username)))
}

/// Looks an account up by its identifier.
pub open spec fn account_by_id(id: Seq<char>) -> Query {
    query(USER_BY_ID@, Fetch::FirstUser).bind(Bound::Text(id))
}

/// Looks up the digest of what a device was given to remember.
pub open spec fn remembered_digest(user_id: Seq<char>, device_identifier: Seq<char>) -> Query {
    query(REMEMBERED_HASH@, Fetch::FirstRow).bind(Bound::Text(user_id)).bind(
        Bound::Text(device_identifier),
    )
}

/// The request asks to sign in with a password, and the account with its address was looked up.
pub open spec fn account_asked_for(form: TokenForm, run: Seq<Exchange>) -> bool {
    &&& form.grant_type == "password"@
    &&& form.username matches Some(username) && run.len() >= 1 && run[0].next == Move::Perform(
        Work::Query(account_by_address(username)),
        TokenStage::FindingUser,
    )
}

/// The account that was found has the password of the request; whether it has a second factor was
/// asked.
pub open spec fn password_shown(form: TokenForm, run: Seq<Exchange>, user: Account) -> bool {
    &&& account_asked_for(form, run)
    &&& run.len() >= 2
    &&& run[1].event == Event::User(AccountRow::Found(user))
    &&& form.password == Some(user.master_password_hash)
    &&& run[1].next == Move::Perform(
        Work::AuthenticatorEnabled { user_id: user.id },
        TokenStage::CheckingTwoFactor { user },
    )
}

/// The account has a second factor, and the request shows the right one: the token whose digest is
/// stored for the account and the device, or a code that the account's authenticator gives.
pub open spec fn factor_shown(
    headers: Map<Seq<char>, Seq<Seq<u8>>>,
    form: TokenForm,
    keys: Keys,
    run: Seq<Exchange>,
    user: Account,
) -> bool {
    match factor_of(headers, form) {
        Factor::Missing => false,
        Factor::Remembered { device_identifier, presented, remember } => {
            &&& run.len() >= 6
            &&& run[4].next == Move::Perform(
                Work::Query(remembered_digest(user.id, device_identifier)),
                TokenStage::CheckingRemembered { user, presented, remember },
            )
            &&& run[5].event matches Event::Row(Some(row)) && text_in(row, "remember_token_hash"@)
                == Some(sha256_hex_of(trimmed(presented)))
        },
        Factor::Code(code) => {
            &&& run.len() >= 5
            &&& run[2].next == Move::Perform(
                Work::AuthenticatorSecret { user_id: user.id },
                TokenStage::FetchingSecret { user, code },
            )
            &&& run[3].event matches Event::Secret(Ok(Some(secret_enc))) && run[3].next
                == Move::Perform(
                Work::VerifyTotp {
                    key: keys.two_factor_enc_key,
                    user_id: user.id,
                    secret_enc,
                    code,
                },
                TokenStage::VerifyingCode { user },
            )
            &&& run[4].event == Event::Totp(Ok(true))
        },
    }
}

/// The request has shown that it comes from `user`: with the password, and with the second factor
/// where the account has one.
pub open spec fn signed_in(
    headers: Map<Seq<char>, Seq<Seq<u8>>>,
    form: TokenForm,
    keys: Keys,
    run: Seq<Exchange>,
    user: Account,
) -> bool {
    &&& password_shown(form, run, user)
    &&& run.len() >= 3
    &&& run[2].event == Event::Enabled(Ok(false)) || run[2].event == Event::Enabled(Ok(true))
        && factor_shown(headers, form, keys, run, user)
}

/// The refresh token of a request: the form's, or else the cookie's.
pub open spec fn presented_refresh_token(
    headers: Map<Seq<char>, Seq<Seq<u8>>>,
    form: TokenForm,
) -> Option<Seq<char>> {
    first_of(form.refresh_token, request_cookie(headers, "bw_refresh_token"@))
}

/// The request shows a refresh token that is signed with the server's key; what it carries was
/// asked to be read.
pub open spec fn refresh_token_shown(
    headers: Map<Seq<char>, Seq<Seq<u8>>>,
    form: TokenForm,
    keys: Keys,
    run: Seq<Exchange>,
) -> bool {
    &&& form.grant_type == "refresh_token"@
    &&& run.len() >= 1
    &&& presented_refresh_token(headers, form) matches Some(token)
        && keys.jwt_refresh_secret matches Ok(secret) && (run[0].next matches Move::Perform(
        Work::ReadClaims { payload },
        TokenStage::ReadingClaims,
    ) && verified_payload(token, secret, Some(payload)))
}

/// The account that the refresh token names was looked up.
pub open spec fn named_account_asked_for(run: Seq<Exchange>) -> bool {
    run.len() >= 2 && (run[1].event matches Event::Claims(Some(claims)) && run[1].next
        == Move::Perform(Work::Query(account_by_id(claims.sub)), TokenStage::FindingRefreshUser))
}

/// The request has shown a refresh token that names `user`.
pub open spec fn renewed(
    headers: Map<Seq<char>, Seq<Seq<u8>>>,
    form: TokenForm,
    keys: Keys,
    run: Seq<Exchange>,
    user: Account,
) -> bool {
    &&& refresh_token_shown(headers, form, keys, run)
    &&& named_account_asked_for(run)
    &&& run.len() >= 3
    &&& run[2].event == Event::User(AccountRow::Found(user))
}

/// A remember token is due where the account has a second factor, which the request did not show by
/// bringing a remembered token in the form, and a device that says which it is wants one.
pub open spec fn remember_token_is_due(form: TokenForm, run: Seq<Exchange>) -> bool {
    &&& run[2].event == Event::Enabled(Ok(true))
    &&& wants_remember(form)
    &&& form.device_identifier is Some
    &&& form.two_factor_provider != Some(TWO_FACTOR_PROVIDER_REMEMBER)
}

/// Tokens have been issued for `user`, who signed in.
pub open spec fn granted(
    headers: Map<Seq<char>, Seq<Seq<u8>>>,
    form: TokenForm,
    keys: Keys,
    run: Seq<Exchange>,
    user: Account,
    issue: Issue,
    remember_token: Option<Seq<char>>,
    now: Timestamp,
) -> bool {
    &&& signed_in(headers, form, keys, run, user)
    &&& now.dated()
    &&& is_issue(issue, user, keys, now)
    &&& drawn(remember_token_is_due(form, run), remember_token)
}

/// Tokens have been issued for the account `user_id`, whose user signed in.
pub open spec fn granted_to(
    headers: Map<Seq<char>, Seq<Seq<u8>>>,
    form: TokenForm,
    keys: Keys,
    run: Seq<Exchange>,
    user_id: Seq<char>,
    issue: Issue,
    remember_token: Option<Seq<char>>,
) -> bool {
    exists|user: Account, now: Timestamp|
        user.id == user_id && #[trigger] granted(
            headers,
            form,
            keys,
            run,
            user,
            issue,
            remember_token,
            now,
        )
}

/// Tokens have been issued for an account whose user signed in, and the device was asked to be
/// noted for it.
pub open spec fn granted_and_noted(
    headers: Map<Seq<char>, Seq<Seq<u8>>>,
    form: TokenForm,
    keys: Keys,
    run: Seq<Exchange>,
    issue: Issue,
    remember_token: Option<Seq<char>>,
) -> bool {
    exists|user: Account, now: Timestamp| #[trigger]
        granted(headers, form, keys, run, user, issue, remember_token, now) && device_noted(
            form,
            run.last().next,
            user.id,
            remember_token,
        )
}

/// What is known of a request that stands at `stage` after the steps of `run`.
pub open spec fn has_shown(
    headers: Map<Seq<char>, Seq<Seq<u8>>>,
    form: TokenForm,
    keys: Keys,
    run: Seq<Exchange>,
    stage: TokenStage,
) -> bool {
    match stage {
        TokenStage::Start => run.len() == 0,
        TokenStage::FindingUser => run.len() == 1 && account_asked_for(form, run),
        TokenStage::CheckingTwoFactor { user } => run.len() == 2 && password_shown(form, run, user),
        TokenStage::PreparingRemembered { user, device_identifier, presented, remember, table } => {
            &&& run.len() == 4 - table_rank(table)
            &&& password_shown(form, run, user)
            &&& run[2].event == Event::Enabled(Ok(true))
            &&& factor_of(headers, form) == Factor::Remembered {
                device_identifier,
                presented,
                remember,
            }
        },
        TokenStage::CheckingRemembered { user, presented, remember } => {
            &&& run.len() == 5
            &&& password_shown(form, run, user)
            &&& run[2].event == Event::Enabled(Ok(true))
            &&& factor_of(headers, form) matches Factor::Remembered {
                device_identifier,
                presented: p,
                remember: r,
            } && p == presented && r == remember && run[4].next == Move::Perform(
                Work::Query(remembered_digest(user.id, device_identifier)),
                stage,
            )
        },
        TokenStage::FetchingSecret { user, code } => {
            &&& run.len() == 3
            &&& password_shown(form, run, user)
            &&& run[2].event == Event::Enabled(Ok(true))
            &&& factor_of(headers, form) == Factor::Code(code)
            &&& run[2].next == Move::Perform(
                Work::AuthenticatorSecret { user_id: user.id },
                stage,
            )
        },
        TokenStage::VerifyingCode { user } => {
            &&& run.len() == 4
            &&& password_shown(form, run, user)
            &&& run[2].event == Event::Enabled(Ok(true))
            &&& factor_of(headers, form) matches Factor::Code(code) && run[2].next == Move::Perform(
                Work::AuthenticatorSecret { user_id: user.id },
                TokenStage::FetchingSecret { user, code },
            ) && (run[3].event matches Event::Secret(Ok(Some(secret_enc))) && run[3].next
                == Move::Perform(
                Work::VerifyTotp {
                    key: keys.two_factor_enc_key,
                    user_id: user.id,
                    secret_enc,
                    code,
                },
                stage,
            ))
        },
        TokenStage::PreparingDevice { user_id, device_identifier, issue, remember_token, .. } => {
            &&& form.device_identifier == Some(device_identifier)
            &&& granted_to(headers, form, keys, run, user_id, issue, remember_token)
        },
        TokenStage::SavingDevice { issue, remember_token } => granted_and_noted(
            headers,
            form,
            keys,
            run,
            issue,
            remember_token,
        ),
        TokenStage::ReadingClaims => run.len() == 1 && refresh_token_shown(
            headers,
            form,
            keys,
            run,
        ),
        TokenStage::FindingRefreshUser => run.len() == 2 && refresh_token_shown(
            headers,
            form,
            keys,
            run,
        ) && named_account_asked_for(run),
    }
}

/// The device was asked to be noted, for the account `user_id` and with the digest of
/// `remember_token`.
pub open spec fn device_noted(
    form: TokenForm,
    next: Move<TokenStage>,
    user_id: Seq<char>,
    remember_token: Option<Seq<char>>,
) -> bool {
    form.device_identifier matches Some(device_identifier) && exists|id: Seq<char>, now: Timestamp|
        random_uuid(id) && now.dated() && (next matches Move::Perform(work, _) && work
            == Work::Query(
            #[trigger] save_device(form, user_id, device_identifier, remember_token, id, now),
        ))
}

/// Tokens were issued for `user`, who signed in, and sent; a device that says which it is was noted
/// before.
pub open spec fn sent_to_who_signed_in(
    headers: Map<Seq<char>, Seq<Seq<u8>>>,
    form: TokenForm,
    keys: Keys,
    run: Seq<Exchange>,
    user: Account,
    issue: Issue,
    remember_token: Option<Seq<char>>,
    now: Timestamp,
) -> bool {
    &&& run.len() >= 1
    &&& run.last().next == Move::<TokenStage>::Answer(token_answer(issue, remember_token))
    &&& granted(headers, form, keys, run, user, issue, remember_token, now)
    &&& form.device_identifier is Some ==> run.len() >= 2 && run.last().event == Event::Done
        && device_noted(form, run[run.len() - 2].next, user.id, remember_token)
}

/// Tokens were issued for `user`, whom the refresh token names, and sent.
pub open spec fn sent_to_who_renewed(
    headers: Map<Seq<char>, Seq<Seq<u8>>>,
    form: TokenForm,
    keys: Keys,
    run: Seq<Exchange>,
    user: Account,
    issue: Issue,
    now: Timestamp,
) -> bool {
    &&& run.len() >= 1
    &&& run.last().next == Move::<TokenStage>::Answer(token_answer(issue, None))
    &&& renewed(headers, form, keys, run, user)
    &&& now.dated()
    &&& is_issue(issue, user, keys, now)
}

/// The answer of `run` sends tokens to someone who showed who they are.
pub open spec fn sent_with_cause(
    headers: Map<Seq<char>, Seq<Seq<u8>>>,
    form: TokenForm,
    keys: Keys,
    run: Seq<Exchange>,
) -> bool {
    ||| exists|user: Account, issue: Issue, remember_token: Option<Seq<char>>, now: Timestamp| #[trigger]
        sent_to_who_signed_in(headers, form, keys, run, user, issue, remember_token, now)
    ||| exists|user: Account, issue: Issue, now: Timestamp| #[trigger]
        sent_to_who_renewed(headers, form, keys, run, user, issue, now)
}

proof fn lemma_signed_in_stays(
    headers: Map<Seq<char>, Seq<Seq<u8>>>,
    form: TokenForm,
    keys: Keys,
    run: Seq<Exchange>,
    step: Exchange,
    user: Account,
)
    requires
        signed_in(headers, form, keys, run, user),
    ensures
        signed_in(headers, form, keys, run.push(step), user),
{
    let longer = run.push(step);
    assert forall|i: int| 0 <= i < run.len() implies longer[i] == #[trigger] run[i] by {}
    assert(longer[0] == run[0] && longer[1] == run[1] && longer[2] == run[2]);
    assert(run.len() >= 5 ==> longer[3] == run[3] && longer[4] == run[4]);
    assert(run.len() >= 6 ==> longer[5] == run[5]);
}

/// How a grant goes on, or ends.
proof fn lemma_grant_is_caused(
    headers: Map<Seq<char>, Seq<Seq<u8>>>,
    form: TokenForm,
    keys: Keys,
    run: Seq<Exchange>,
    user: Account,
    remember: bool,
)
    requires
        run.len() >= 1,
        signed_in(headers, form, keys, run, user),
        remember == remember_token_is_due(form, run),
        carries_out(form, keys, Verdict::Grant { user, remember }, run.last().next),
    ensures
        run.last().next matches Move::Perform(_, next) ==> has_shown(
            headers,
            form,
            keys,
            run,
            next,
        ),
        run.last().next matches Move::Answer(Ok(_)) ==> sent_with_cause(headers, form, keys, run),
{
    let next = run.last().next;
    let (t, now) = choose|t: Option<Seq<char>>, now: Timestamp|
        drawn(remember, t) && now.dated() && issues_well(user, keys, now) && next
            == #[trigger] grant_move(form, keys, user, t, now);
    if let Ok(issue) = tokens_for(user, keys, now) {
        assert(granted(headers, form, keys, run, user, issue, t, now));
        match form.device_identifier {
            Some(device_identifier) => {
                let stage = TokenStage::PreparingDevice {
                    user_id: user.id,
                    device_identifier,
                    issue,
                    remember_token: t,
                    table: TableStage::Create,
                };
                assert(next->Perform_1 == stage);
                assert(granted_to(headers, form, keys, run, user.id, issue, t));
                assert(has_shown(headers, form, keys, run, stage));
            },
            None => {
                assert(sent_to_who_signed_in(headers, form, keys, run, user, issue, t, now));
            },
        }
    }
}

proof fn lemma_step_keeps(
    headers: Map<Seq<char>, Seq<Seq<u8>>>,
    form: TokenForm,
    keys: Keys,
    run: Seq<Exchange>,
    stage: TokenStage,
    step: Exchange,
)
    requires
        stage_after(run) == Some(stage),
        has_shown(headers, form, keys, run, stage),
        carries_out(
            form,
            keys,
            token_decision(headers, form, keys, stage, step.event),
            step.next,
        ),
    ensures
        step.next matches Move::Perform(_, next) ==> has_shown(
            headers,
            form,
            keys,
            run.push(step),
            next,
        ),
        step.next matches Move::Answer(Ok(response)) && response.status == 200 ==> sent_with_cause(
            headers,
            form,
            keys,
            run.push(step),
        ),
{
    let longer = run.push(step);
    assert forall|i: int| 0 <= i < run.len() implies longer[i] == #[trigger] run[i] by {}
    assert(longer.last() == step);
    match stage {
        TokenStage::Start => {
            assert(longer[0] == step);
            if let Verdict::Refresh { token, secret } = token_decision(
                headers,
                form,
                keys,
                stage,
                step.event,
            ) {
                let payload = choose|payload: Option<Seq<char>>|
                    verified_payload(token, secret, payload) && step.next
                        == #[trigger] refresh_move(payload);
                assert(step.next is Perform ==> refresh_token_shown(headers, form, keys, longer));
            } else if step.next is Perform {
                assert(account_asked_for(form, longer));
            }
        },
        TokenStage::FindingUser => {
            assert(longer[0] == run[0] && longer[1] == step);
        },
        TokenStage::CheckingTwoFactor { user } => {
            assert(longer[0] == run[0] && longer[1] == run[1] && longer[2] == step);
            if step.event == Event::Enabled(Ok(false)) {
                lemma_grant_is_caused(headers, form, keys, longer, user, false);
            }
        },
        TokenStage::PreparingRemembered { user, .. } => {
            assert(longer[0] == run[0] && longer[1] == run[1] && longer[2] == run[2]);
            assert(longer[run.len() as int] == step);
        },
        TokenStage::CheckingRemembered { user, presented, remember } => {
            assert(longer[0] == run[0] && longer[1] == run[1] && longer[2] == run[2]);
            assert(longer[4] == run[4] && longer[5] == step);
            if token_decision(headers, form, keys, stage, step.event) is Grant {
                lemma_grant_is_caused(headers, form, keys, longer, user, remember);
            }
        },
        TokenStage::FetchingSecret { user, code } => {
            assert(longer[0] == run[0] && longer[1] == run[1] && longer[2] == run[2]);
            assert(longer[3] == step);
        },
        TokenStage::VerifyingCode { user } => {
            assert(longer[0] == run[0] && longer[1] == run[1] && longer[2] == run[2]);
            assert(longer[3] == run[3] && longer[4] == step);
            if token_decision(headers, form, keys, stage, step.event) is Grant {
                lemma_grant_is_caused(
                    headers,
                    form,
                    keys,
                    longer,
                    user,
                    wants_remember(form) && form.device_identifier is Some,
                );
            }
        },
        TokenStage::PreparingDevice {
            user_id,
            device_identifier,
            issue,
            remember_token,
            table,
        } => {
            let (user, now) = choose|user: Account, now: Timestamp|
                user.id == user_id && #[trigger] granted(
                    headers,
                    form,
                    keys,
                    run,
                    user,
                    issue,
                    remember_token,
                    now,
                );
            lemma_signed_in_stays(headers, form, keys, run, step, user);
            assert(granted(headers, form, keys, longer, user, issue, remember_token, now));
        },
        TokenStage::SavingDevice { issue, remember_token } => {
            let (user, now) = choose|user: Account, now: Timestamp| #[trigger]
                granted(headers, form, keys, run, user, issue, remember_token, now)
                    && device_noted(form, run.last().next, user.id, remember_token);
            lemma_signed_in_stays(headers, form, keys, run, step, user);
            assert(granted(headers, form, keys, longer, user, issue, remember_token, now));
            if step.event == Event::Done {
                assert(longer[longer.len() - 2] == run.last());
                assert(sent_to_who_signed_in(
                    headers,
                    form,
                    keys,
                    longer,
                    user,
                    issue,
                    remember_token,
                    now,
                ));
            }
        },
        TokenStage::ReadingClaims => {
            assert(longer[0] == run[0] && longer[1] == step);
        },
        TokenStage::FindingRefreshUser => {
            assert(longer[0] == run[0] && longer[1] == run[1] && longer[2] == step);
            if let Verdict::Renew { user } = token_decision(
                headers,
                form,
                keys,
                stage,
                step.event,
            ) {
                let now = choose|now: Timestamp|
                    now.dated() && issues_well(user, keys, now) && step.next
                        == Move::<TokenStage>::Answer(#[trigger] renew_answer(keys, user, now));
                if let Ok(issue) = tokens_for(user, keys, now) {
                    assert(sent_to_who_renewed(headers, form, keys, longer, user, issue, now));
                }
            }
        },
    }
}

/// What a request has shown at each stage is what it takes to come there.
pub proof fn law_stages_are_earned(
    headers: Map<Seq<char>, Seq<Seq<u8>>>,
    form: TokenForm,
    keys: Keys,
    run: Seq<Exchange>,
)
    requires
        is_run(headers, form, keys, run),
    ensures
        stage_after(run) matches Some(stage) ==> has_shown(headers, form, keys, run, stage),
    decreases run.len(),
{
    if run.len() > 0 {
        law_stages_are_earned(headers, form, keys, run.drop_last());
        let stage = stage_after(run.drop_last())->0;
        assert(run.drop_last().push(run.last()) =~= run);
        lemma_step_keeps(headers, form, keys, run.drop_last(), stage, run.last());
    }
}

/// Whoever is sent tokens has shown the account's password, and its second factor where it has one,
/// or a refresh token that names the account; the tokens are issued for that account. A remember
/// token is sent exactly where one is due, and its digest is stored before it is sent.
pub proof fn law_tokens_are_earned(
    headers: Map<Seq<char>, Seq<Seq<u8>>>,
    form: TokenForm,
    keys: Keys,
    run: Seq<Exchange>,
    response: Response,
)
    requires
        is_run(headers, form, keys, run),
        run.len() >= 1,
        run.last().next == Move::<TokenStage>::Answer(Ok(response)),
        response.status == 200,
    ensures
        sent_with_cause(headers, form, keys, run),
{
    law_stages_are_earned(headers, form, keys, run.drop_last());
    let stage = stage_after(run.drop_last())->0;
    assert(run.drop_last().push(run.last()) =~= run);
    lemma_step_keeps(headers, form, keys, run.drop_last(), stage, run.last());
}

/// How much a request for tokens still asks for at most.
pub open spec fn token_rank(stage: TokenStage) -> nat {
    match stage {
        TokenStage::Start => 8,
        TokenStage::FindingUser => 7,
        TokenStage::CheckingTwoFactor { .. } => 6,
        TokenStage::PreparingRemembered { table, .. } => 4 + table_rank(table),
        TokenStage::CheckingRemembered { .. } => 3,
        TokenStage::FetchingSecret { .. } => 4,
        TokenStage::VerifyingCode { .. } => 3,
        TokenStage::PreparingDevice { table, .. } => 1 + table_rank(table),
        TokenStage::SavingDevice { .. } => 0,
        TokenStage::ReadingClaims => 1,
        TokenStage::FindingRefreshUser => 0,
    }
}

/// Every request for tokens is answered: each step leaves less to ask for, and no request takes
/// more than nine.
pub proof fn law_token_ends(
    headers: Map<Seq<char>, Seq<Seq<u8>>>,
    form: TokenForm,
    keys: Keys,
    run: Seq<Exchange>,
)
    requires
        is_run(headers, form, keys, run),
    ensures
        stage_after(run) matches Some(stage) ==> run.len() + token_rank(stage) <= 8,
        run.len() <= 9,
    decreases run.len(),
{
    if run.len() > 0 {
        law_token_ends(headers, form, keys, run.drop_last());
        let stage = stage_after(run.drop_last())->0;
        assert(run.last().next matches Move::Perform(_, next) ==> token_rank(next) < token_rank(
            stage,
        ));
    }
}

/// Whoever shows the right password is granted tokens where the account has no second factor, and
/// where it has one and the request shows the right code.
pub proof fn law_who_shows_all_is_granted(
    headers: Map<Seq<char>, Seq<Seq<u8>>>,
    form: TokenForm,
    keys: Keys,
    user: Account,
    code: Seq<char>,
    secret_enc: Seq<char>,
)
    requires
        form.password == Some(user.master_password_hash),
    ensures
        token_decision(
            headers,
            form,
            keys,
            TokenStage::FindingUser,
            Event::User(AccountRow::Found(user)),
        ) == asked(
            Work::AuthenticatorEnabled { user_id: user.id },
            TokenStage::CheckingTwoFactor { user },
        ),
        token_decision(
            headers,
            form,
            keys,
            TokenStage::CheckingTwoFactor { user },
            Event::Enabled(Ok(false)),
        ) == (Verdict::Grant { user, remember: false }),
        factor_of(headers, form) == Factor::Code(code) ==> token_decision(
            headers,
            form,
            keys,
            TokenStage::CheckingTwoFactor { user },
            Event::Enabled(Ok(true)),
        ) == asked(
            Work::AuthenticatorSecret { user_id: user.id },
            TokenStage::FetchingSecret { user, code },
        ),
        token_decision(
            headers,
            form,
            keys,
            TokenStage::FetchingSecret { user, code },
            Event::Secret(Ok(Some(secret_enc))),
        ) == asked(
            Work::VerifyTotp { key: keys.two_factor_enc_key, user_id: user.id, secret_enc, code },
            TokenStage::VerifyingCode { user },
        ),
        token_decision(
            headers,
            form,
            keys,
            TokenStage::VerifyingCode { user },
            Event::Totp(Ok(true)),
        ) == (Verdict::Grant {
            user,
            remember: wants_remember(form) && form.device_identifier is Some,
        }),
{
}

// ---- refusals give nothing away ----

/// A wrong password is answered as an address that no account has.
pub proof fn law_wrong_password_looks_like_no_account(
    headers: Map<Seq<char>, Seq<Seq<u8>>>,
    form: TokenForm,
    keys: Keys,
    user: Account,
)
    requires
        form.password != Some(user.master_password_hash),
    ensures
        token_decision(
            headers,
            form,
            keys,
            TokenStage::FindingUser,
            Event::User(AccountRow::Found(user)),
        ) == token_decision(
            headers,
            form,
            keys,
            TokenStage::FindingUser,
            Event::User(AccountRow::Missing),
        ),
{
}

/// A remembered token that is not the device's is answered as a device that has none, and as a
/// request without a second factor.
pub proof fn law_wrong_remembered_token_looks_like_none(
    headers: Map<Seq<char>, Seq<Seq<u8>>>,
    form: TokenForm,
    keys: Keys,
    user: Account,
    presented: Seq<char>,
    remember: bool,
    row: Seq<(Seq<char>, Datum)>,
)
    requires
        text_in(row, "remember_token_hash"@) != Some(sha256_hex_of(trimmed(presented))),
    ensures
        token_decision(
            headers,
            form,
            keys,
            TokenStage::CheckingRemembered { user, presented, remember },
            Event::Row(Some(row)),
        ) == Verdict::Next(Move::Answer(Ok(two_factor_required()))),
        token_decision(
            headers,
            form,
            keys,
            TokenStage::CheckingRemembered { user, presented, remember },
            Event::Row(None),
        ) == Verdict::Next(Move::Answer(Ok(two_factor_required()))),
        factor_of(headers, form) == Factor::Missing ==> token_decision(
            headers,
            form,
            keys,
            TokenStage::CheckingTwoFactor { user },
            Event::Enabled(Ok(true)),
        ) == Verdict::Next(Move::Answer(Ok(two_factor_required()))),
{
}

// ---- what was sent is good ----

/// A device that was given a remember token, and brings it in its cookie, needs no code: the token
/// is the second factor that the request shows, and it is the one whose digest was stored.
pub proof fn law_remembered_device_signs_in(
    headers: Map<Seq<char>, Seq<Seq<u8>>>,
    raw: Seq<char>,
    form: TokenForm,
    keys: Keys,
    user: Account,
    token: Seq<char>,
    row: Seq<(Seq<char>, Datum)>,
)
    requires
        is_remember_token(token),
        form.two_factor_provider is None,
        form.two_factor_token is None,
        form.device_identifier is Some,
        header_text(headers, "cookie"@) == Some(raw),
        carries_cookie(raw, "twoFactorRemember"@, token) || cookie_value(raw, "twoFactorRemember"@)
            is None && carries_cookie(raw, "TwoFactorRemember"@, token),
        text_in(row, "remember_token_hash"@) == Some(sha256_hex_of(token)),
    ensures
        factor_of(headers, form) == (Factor::Remembered {
            device_identifier: form.device_identifier->0,
            presented: token,
            remember: wants_remember(form),
        }),
        token_decision(
            headers,
            form,
            keys,
            TokenStage::CheckingRemembered {
                user,
                presented: token,
                remember: wants_remember(form),
            },
            Event::Row(Some(row)),
        ) == (Verdict::Grant { user, remember: wants_remember(form) }),
{
    reveal_strlit("twoFactorRemember");
    reveal_strlit("TwoFactorRemember");
    law_remember_token_is_plain(token);
    assert(cookie_name("twoFactorRemember"@));
    assert(cookie_name("TwoFactorRemember"@));
    if carries_cookie(raw, "twoFactorRemember"@, token) {
        law_cookie_reads_back_among_others(raw, "twoFactorRemember"@, token);
    } else {
        law_cookie_reads_back_among_others(raw, "TwoFactorRemember"@, token);
    }
}

/// So does a device that brings the token in the form, whatever white space is around it; but it is
/// given no other.
pub proof fn law_remembered_token_in_form_signs_in(
    headers: Map<Seq<char>, Seq<Seq<u8>>>,
    form: TokenForm,
    keys: Keys,
    user: Account,
    before: Seq<char>,
    token: Seq<char>,
    after: Seq<char>,
    row: Seq<(Seq<char>, Datum)>,
)
    requires
        is_remember_token(token),
        blank(before),
        blank(after),
        form.two_factor_provider == Some(TWO_FACTOR_PROVIDER_REMEMBER),
        form.two_factor_token == Some(before + token + after),
        form.device_identifier is Some,
        text_in(row, "remember_token_hash"@) == Some(sha256_hex_of(token)),
    ensures
        factor_of(headers, form) == (Factor::Remembered {
            device_identifier: form.device_identifier->0,
            presented: before + token + after,
            remember: false,
        }),
        token_decision(
            headers,
            form,
            keys,
            TokenStage::CheckingRemembered {
                user,
                presented: before + token + after,
                remember: false,
            },
            Event::Row(Some(row)),
        ) == (Verdict::Grant { user, remember: false }),
{
    law_remember_token_is_plain(token);
    law_padding_is_trimmed(before, token, after);
}

/// Of a remember token the database is given the digest that signing in compares with, and nothing
/// else.
pub proof fn law_only_the_digest_is_stored(
    form: TokenForm,
    user_id: Seq<char>,
    device_identifier: Seq<char>,
    token: Seq<char>,
    id: Seq<char>,
    now: Timestamp,
)
    ensures
        save_device(form, user_id, device_identifier, Some(token), id, now).params
            == save_device(form, user_id, device_identifier, None, id, now).params.update(
            5,
            Bound::Text(sha256_hex_of(token)),
        ),
{
}

/// A refresh token that was issued for an account, when it is shown again, either is no longer good
/// or has its claims read, which are those of the account; and with these the account is looked up
/// by the identifier for which the token was issued.
pub proof fn law_refresh_token_names_its_account(
    headers: Map<Seq<char>, Seq<Seq<u8>>>,
    form: TokenForm,
    keys: Keys,
    issue: Issue,
    user: Account,
    now: Timestamp,
    event: Event,
    next: Move<TokenStage>,
)
    requires
        carries_claims(issue, user, keys, now),
        form.grant_type == "refresh_token"@,
        presented_refresh_token(headers, form) == Some(issue.refresh_token),
        carries_out(
            form,
            keys,
            token_decision(headers, form, keys, TokenStage::Start, event),
            next,
        ),
    ensures
        next == Move::<TokenStage>::Answer(Err(Failure::Unauthorized("Invalid refresh token"@)))
            || next == Move::Perform(
            Work::ReadClaims {
                payload: claims_text(claims_for(user, now, REFRESH_SECONDS as int)),
            },
            TokenStage::ReadingClaims,
        ),
        token_decision(
            headers,
            form,
            keys,
            TokenStage::ReadingClaims,
            Event::Claims(Some(claims_for(user, now, REFRESH_SECONDS as int))),
        ) == Verdict::Next(
            Move::Perform(Work::Query(account_by_id(user.id)), TokenStage::FindingRefreshUser),
        ),
{
    reveal_strlit("password");
    reveal_strlit("refresh_token");
    assert("password"@.len() != "refresh_token"@.len());
}

// ---- what the answer holds ----

proof fn lemma_names_of_response(user: Account, access_token: Seq<char>, refresh_token: Seq<char>)
    ensures
        token_response(user, access_token, refresh_token).len() == 16,
        forall|i: int|
            0 <= i < 16 ==> i != 11 ==> (#[trigger] token_response(
                user,
                access_token,
                refresh_token,
            )[i]).0 != "access_token"@,
        forall|i: int|
            0 <= i < 16 ==> i != 13 ==> (#[trigger] token_response(
                user,
                access_token,
                refresh_token,
            )[i]).0 != "refresh_token"@,
        forall|i: int|
            0 <= i < 16 ==> (#[trigger] token_response(user, access_token, refresh_token)[i]).0
                != "TwoFactorToken"@,
        token_response(user, access_token, refresh_token)[11] == (
            "access_token"@,
            Document::Text(access_token),
        ),
        token_response(user, access_token, refresh_token)[13] == (
            "refresh_token"@,
            Document::Text(refresh_token),
        ),
{
    reveal_strlit("ForcePasswordReset");
    reveal_strlit("Kdf");
    reveal_strlit("KdfIterations");
    reveal_strlit("KdfMemory");
    reveal_strlit("KdfParallelism");
    reveal_strlit("Key");
    reveal_strlit("MasterPasswordPolicy");
    reveal_strlit("PrivateKey");
    reveal_strlit("ResetMasterPassword");
    reveal_strlit("UserDecryptionOptions");
    reveal_strlit("AccountKeys");
    reveal_strlit("access_token");
    reveal_strlit("expires_in");
    reveal_strlit("refresh_token");
    reveal_strlit("scope");
    reveal_strlit("token_type");
    reveal_strlit("TwoFactorToken");
    let r = token_response(user, access_token, refresh_token);
    assert forall|i: int| 0 <= i < 16 implies (i != 11 ==> (#[trigger] r[i]).0 != "access_token"@)
        && (i != 13 ==> r[i].0 != "refresh_token"@) && r[i].0 != "TwoFactorToken"@ by {
        assert("KdfParallelism"@[0] == 'K' && "TwoFactorToken"@[0] == 'T');
        assert(r[i].0.len() != 12 || i == 11);
        assert(r[i].0.len() != 13 || i == 13 || r[i].0[0] == 'K');
        assert(r[i].0.len() != 14 || r[i].0[0] == 'K');
    }
}

/// What the client is told holds the two tokens, and the remember token exactly where there is one.
pub proof fn law_body_holds_the_tokens(
    user: Account,
    keys: Keys,
    now: Timestamp,
    issue: Issue,
    remember_token: Option<Seq<char>>,
)
    requires
        tokens_for(user, keys, now) == Ok::<Issue, Failure>(issue),
    ensures
        member_of(token_body(issue, remember_token), "access_token"@) == Some(
            Document::Text(issue.access_token),
        ),
        member_of(token_body(issue, remember_token), "refresh_token"@) == Some(
            Document::Text(issue.refresh_token),
        ),
        member_of(token_body(issue, remember_token), "TwoFactorToken"@) == (match remember_token {
            Some(t) => Some(Document::Text(t)),
            None => None,
        }),
{
    lemma_names_of_response(user, issue.access_token, issue.refresh_token);
    let told = issue.response;
    let members = token_body(issue, remember_token)->Object_0;
    assert forall|i: int| 0 <= i < 16 implies #[trigger] members[i] == told[i] by {}
    lemma_member_at(members, "access_token"@, 11);
    lemma_member_at(members, "refresh_token"@, 13);
    match remember_token {
        Some(_) => {
            lemma_member_at(members, "TwoFactorToken"@, 16);
        },
        None => {
            lemma_member_missing(members, "TwoFactorToken"@);
        },
    }
}

/// Of a request that signed in with a password and was sent tokens, the answer holds a remember
/// token exactly where the account has a second factor, the form wants a remember token and has a
/// device identifier, and the second factor was not a remembered token brought in the form.
pub proof fn law_remember_token_is_sent_where_due(
    headers: Map<Seq<char>, Seq<Seq<u8>>>,
    form: TokenForm,
    keys: Keys,
    run: Seq<Exchange>,
    response: Response,
)
    requires
        is_run(headers, form, keys, run),
        run.len() >= 1,
        run.last().next == Move::<TokenStage>::Answer(Ok(response)),
        response.status == 200,
        form.grant_type == "password"@,
    ensures
        match member_of(response.body, "TwoFactorToken"@) {
            Some(Document::Text(t)) => remember_token_is_due(form, run) && is_remember_token(t),
            Some(_) => false,
            None => !remember_token_is_due(form, run),
        },
{
    reveal_strlit("password");
    reveal_strlit("refresh_token");
    assert("password"@.len() != "refresh_token"@.len());
    law_tokens_are_earned(headers, form, keys, run, response);
    let (user, issue, remember_token, now) = choose|
        user: Account,
        issue: Issue,
        remember_token: Option<Seq<char>>,
        now: Timestamp,
    | #[trigger]
        sent_to_who_signed_in(headers, form, keys, run, user, issue, remember_token, now);
    law_issued_tokens_are_sent(issue, remember_token);
    law_body_holds_the_tokens(user, keys, now, issue, remember_token);
}

// ---- from one request to the next ----

proof fn lemma_step_of_run(
    headers: Map<Seq<char>, Seq<Seq<u8>>>,
    form: TokenForm,
    keys: Keys,
    run: Seq<Exchange>,
    i: int,
)
    requires
        is_run(headers, form, keys, run),
        0 <= i < run.len(),
    ensures
        stage_after(run.take(i)) matches Some(stage) && carries_out(
            form,
            keys,
            token_decision(headers, form, keys, stage, run[i].event),
            run[i].next,
        ),
    decreases run.len(),
{
    if i == run.len() - 1 {
        assert(run.take(i) =~= run.drop_last());
    } else {
        lemma_step_of_run(headers, form, keys, run.drop_last(), i);
        assert(run.drop_last().take(i) =~= run.take(i));
    }
}

/// `run` sent tokens that were issued for `user` at `now`: they signed in, or a refresh token named
/// them.
pub open spec fn sent_to(
    headers: Map<Seq<char>, Seq<Seq<u8>>>,
    form: TokenForm,
    keys: Keys,
    run: Seq<Exchange>,
    user: Account,
    issue: Issue,
    now: Timestamp,
) -> bool {
    ||| exists|remember_token: Option<Seq<char>>| #[trigger]
        sent_to_who_signed_in(headers, form, keys, run, user, issue, remember_token, now)
    ||| sent_to_who_renewed(headers, form, keys, run, user, issue, now)
}

/// How a request goes that shows the refresh token with `claims`: the token has run out, or its
/// claims are read, the account that they name is looked up, and whoever is found is sent tokens of
/// their own, without a remember token. Nothing else is asked for: no password, no second factor,
/// and nothing of the table of devices.
pub open spec fn renews(keys: Keys, run: Seq<Exchange>, claims: ClaimSet) -> bool {
    &&& run.len() <= 3
    &&& run.len() >= 1 ==> run[0].next == Move::<TokenStage>::Answer(
        Err(Failure::Unauthorized("Invalid refresh token"@)),
    ) || run[0].next == Move::Perform(
        Work::ReadClaims { payload: claims_text(claims) },
        TokenStage::ReadingClaims,
    )
    &&& run.len() >= 2 && run[1].event == Event::Claims(Some(claims)) ==> run[1].next
        == Move::Perform(Work::Query(account_by_id(claims.sub)), TokenStage::FindingRefreshUser)
    &&& run.len() >= 3 ==> (run[2].event matches Event::User(AccountRow::Found(found))
        ==> is_renewal(keys, found, run[2].next))
}

/// The request is answered with tokens that were issued for `found`, and with no remember token.
pub open spec fn is_renewal(keys: Keys, found: Account, next: Move<TokenStage>) -> bool {
    exists|issue: Issue, now: Timestamp|
        now.dated() && #[trigger] is_issue(issue, found, keys, now) && next == Move::<
            TokenStage,
        >::Answer(
            Ok(
                Response {
                    status: 200,
                    headers: cookie_headers(token_cookies(issue, None)),
                    body: token_body(issue, None),
                },
            ),
        )
}

proof fn lemma_shown_refresh_token_renews(
    headers: Map<Seq<char>, Seq<Seq<u8>>>,
    form: TokenForm,
    keys: Keys,
    run: Seq<Exchange>,
    issue: Issue,
    user: Account,
    now: Timestamp,
)
    requires
        is_issue(issue, user, keys, now),
        is_run(headers, form, keys, run),
        form.grant_type == "refresh_token"@,
        presented_refresh_token(headers, form) == Some(issue.refresh_token),
    ensures
        renews(keys, run, claims_for(user, now, REFRESH_SECONDS as int)),
{
    let claims = claims_for(user, now, REFRESH_SECONDS as int);
    if run.len() >= 1 {
        lemma_step_of_run(headers, form, keys, run, 0);
        law_refresh_token_names_its_account(
            headers,
            form,
            keys,
            issue,
            user,
            now,
            run[0].event,
            run[0].next,
        );
    }
    if run.len() >= 2 {
        lemma_step_of_run(headers, form, keys, run, 1);
        assert(run.take(1).last() == run[0]);
    }
    if run.len() >= 3 {
        lemma_step_of_run(headers, form, keys, run, 2);
        assert(run.take(2).last() == run[1]);
        if let Event::User(AccountRow::Found(found)) = run[2].event {
            let later = choose|later: Timestamp|
                later.dated() && issues_well(found, keys, later) && run[2].next
                    == Move::<TokenStage>::Answer(#[trigger] renew_answer(keys, found, later));
            let renewed = tokens_for(found, keys, later)->Ok_0;
            assert(is_issue(renewed, found, keys, later));
            law_issued_tokens_are_sent(renewed, None);
        }
    }
    if run.len() >= 4 {
        lemma_step_of_run(headers, form, keys, run, 3);
        assert(run.take(3).last() == run[2]);
    }
}

/// A refresh token that a request was sent renews the account that it was sent to: a later request
/// that shows it, in the form or in its cookie, with the server's keys as they were, either finds it
/// run out or reads its claims, looks up that account, and is sent tokens if the account is found.
pub proof fn law_sent_refresh_token_renews(
    headers: Map<Seq<char>, Seq<Seq<u8>>>,
    form: TokenForm,
    keys: Keys,
    run: Seq<Exchange>,
    response: Response,
    later_headers: Map<Seq<char>, Seq<Seq<u8>>>,
    later_form: TokenForm,
    later_run: Seq<Exchange>,
    token: Seq<char>,
)
    requires
        is_run(headers, form, keys, run),
        run.len() >= 1,
        run.last().next == Move::<TokenStage>::Answer(Ok(response)),
        response.status == 200,
        member_of(response.body, "refresh_token"@) == Some(Document::Text(token)),
        is_run(later_headers, later_form, keys, later_run),
        later_form.grant_type == "refresh_token"@,
        presented_refresh_token(later_headers, later_form) == Some(token),
    ensures
        exists|user: Account, issue: Issue, now: Timestamp| #[trigger]
            sent_to(headers, form, keys, run, user, issue, now) && renews(
                keys,
                later_run,
                claims_for(user, now, REFRESH_SECONDS as int),
            ) && claims_for(user, now, REFRESH_SECONDS as int).sub == user.id,
{
    law_tokens_are_earned(headers, form, keys, run, response);
    if exists|user: Account, issue: Issue, remember_token: Option<Seq<char>>, now: Timestamp| #[trigger]
        sent_to_who_signed_in(headers, form, keys, run, user, issue, remember_token, now) {
        let (user, issue, remember_token, now) = choose|
            user: Account,
            issue: Issue,
            remember_token: Option<Seq<char>>,
            now: Timestamp,
        | #[trigger]
            sent_to_who_signed_in(headers, form, keys, run, user, issue, remember_token, now);
        law_issued_tokens_are_sent(issue, remember_token);
        law_body_holds_the_tokens(user, keys, now, issue, remember_token);
        assert(sent_to(headers, form, keys, run, user, issue, now));
        lemma_shown_refresh_token_renews(
            later_headers,
            later_form,
            keys,
            later_run,
            issue,
            user,
            now,
        );
    } else {
        let (user, issue, now) = choose|user: Account, issue: Issue, now: Timestamp| #[trigger]
            sent_to_who_renewed(headers, form, keys, run, user, issue, now);
        law_issued_tokens_are_sent(issue, None);
        law_body_holds_the_tokens(user, keys, now, issue, None);
        assert(sent_to(headers, form, keys, run, user, issue, now));
        lemma_shown_refresh_token_renews(
            later_headers,
            later_form,
            keys,
            later_run,
            issue,
            user,
            now,
        );
    }
}

/// A refresh token that comes back in its cookie, and not in the form, is the one that is shown.
pub proof fn law_refresh_cookie_is_shown(
    headers: Map<Seq<char>, Seq<Seq<u8>>>,
    raw: Seq<char>,
    form: TokenForm,
    token: Seq<char>,
)
    requires
        is_token(token),
        form.refresh_token is None,
        header_text(headers, "cookie"@) == Some(raw),
        carries_cookie(raw, "bw_refresh_token"@, token),
    ensures
        presented_refresh_token(headers, form) == Some(token),
{
    reveal_strlit("bw_refresh_token");
    assert(cookie_name("bw_refresh_token"@));
    assert(cookie_text(token)) by {
        if token.len() > 0 {
            assert(token_char(token[0]) && token_char(token[token.len() - 1]));
        }
        if token.contains(';') {
            let k = choose|k: int| 0 <= k < token.len() && token[k] == ';';
            assert(token_char(token[k]));
        }
    }
    law_cookie_reads_back_among_others(raw, "bw_refresh_token"@, token);
}

/// A renewal's access token is signed with its key, names whoever was found, and is what the client
/// is told; there is no remember token beside it.
pub proof fn law_renewal_is_for_who_was_found(
    keys: Keys,
    issue: Issue,
    found: Account,
    now: Timestamp,
)
    requires
        is_issue(issue, found, keys, now),
    ensures
        member_of(token_body(issue, None), "access_token"@) == Some(
            Document::Text(issue.access_token),
        ),
        member_of(token_body(issue, None), "TwoFactorToken"@) is None,
        keys.jwt_secret matches Ok(key) && token_payload(issue.access_token, key) == Some(
            claims_text(claims_for(found, now, ACCESS_SECONDS as int)),
        ),
        claims_for(found, now, ACCESS_SECONDS as int).sub == found.id,
{
    law_body_holds_the_tokens(found, keys, now, issue, None);
}

} // verus!
