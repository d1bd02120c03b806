//! Device requests from their start to their answer: what is asked for in turn, and what is answered
//! for everything that can come back.
use vstd::prelude::*;
use crate::clock::Timestamp;
use crate::codec::{
    base64url_text, law_encoded_text_reads_back, law_unreadable_text_is_told_apart, lowercase,
};
use crate::devices::{
    device_list, device_token_move, get_device_move, get_devices_move, inferred_name, inferred_type,
    knowndevice_move, row_document, settle_move, shown_device, DeviceTokenState, GetDeviceStage,
    GetDevicesState, KnownDeviceStage, DEVICES_OF_USER, DEVICE_BY_ID, DEVICE_BY_IDENTIFIER,
    DEVICE_IS_KNOWN, INSERT_DEVICE, NOTE_DEVICE, UPDATE_DEVICE, USER_ID_BY_EMAIL,
};
use crate::error::Failure;
use crate::flow::{Event, Move, QueryFailure, Work};
use crate::headers::header_text;
use crate::json::{lemma_member_at, member, member_of, Document};
use crate::sql::{
    integer_in, text_in, Bound, Datum, Fetch, Query, ALTER_DEVICES, CREATE_DEVICES,
};
use crate::table::{is_known, looked_for, Store};
use crate::text::{
    blank, decimal, integer_of, law_blank_is_trimmed_away, law_decimal_reads_back,
    law_padding_is_trimmed, law_tight_is_trimmed, tight, trimmed,
};

verus! {

broadcast use vstd::string::group_string_axioms;

// ---- how a request goes on ----

/// Whether a request asks for this next.
pub open spec fn asks<V>(m: Move<V>, work: Work) -> bool {
    m matches Move::Perform(w, _) && w == work
}

/// Whether a request asks for this statement to be run next.
pub open spec fn asks_for<V>(m: Move<V>, sql: Seq<char>, params: Seq<Bound>, fetch: Fetch) -> bool {
    asks(m, Work::Query(Query { sql, params, fetch }))
}

/// Whether a request is answered with a document by itself, and that it is well.
pub open spec fn shows_document<V>(m: Move<V>, body: Document) -> bool {
    m matches Move::Answer(Ok(r)) && r.status == 200 && r.headers
        == Map::<Seq<char>, Seq<Seq<u8>>>::empty() && r.body == body
}

/// Whether a request is refused.
pub open spec fn fails<V>(m: Move<V>, failure: Failure) -> bool {
    m matches Move::Answer(Err(f)) && f == failure
}

/// How a request goes on that is told `event`. One that has been answered is over.
pub open spec fn told<V>(
    m: Move<V>,
    step: spec_fn(V, Event) -> Move<V>,
    event: Event,
) -> Move<V> {
    match m {
        Move::Perform(_, stage) => step(stage, event),
        Move::Answer(_) => m,
    }
}

/// Whether a request is refused for a statement that failed: for what the platform says of it, where
/// it says something, and else for the database.
pub open spec fn fails_for<V>(m: Move<V>, failure: QueryFailure) -> bool {
    match failure {
        QueryFailure::Bind(message) => fails(m, Failure::Worker(message)),
        QueryFailure::Run => fails(m, Failure::Database),
        QueryFailure::Results(message) => fails(m, Failure::Worker(message)),
    }
}

/// Whether `first` makes the table of devices, `second` follows it when it is told `event`, and
/// adds the column; or fails, where the table could not be made.
pub open spec fn makes_the_table<V>(first: Move<V>, event: Event, second: Move<V>) -> bool {
    &&& asks_for(first, CREATE_DEVICES@, Seq::empty(), Fetch::Nothing)
    &&& if event is Failed {
        fails(second, Failure::Database)
    } else {
        asks_for(second, ALTER_DEVICES@, Seq::empty(), Fetch::Nothing)
    }
}

// ---- is the device known? ----

/// One step of the question whether a device is known.
pub open spec fn known_step(headers: Map<Seq<char>, Seq<Seq<u8>>>) -> spec_fn(
    KnownDeviceStage,
    Event,
) -> Move<KnownDeviceStage> {
    |stage: KnownDeviceStage, event: Event| knowndevice_move(headers, stage, event)
}

/// The question whether a device is known, after the first of its steps.
pub open spec fn known_first(headers: Map<Seq<char>, Seq<Seq<u8>>>, e: Event) -> Move<
    KnownDeviceStage,
> {
    knowndevice_move(headers, KnownDeviceStage::Start, e)
}

/// After three steps: the table has been seen to.
pub open spec fn known_third(
    headers: Map<Seq<char>, Seq<Seq<u8>>>,
    e: Event,
    created: Event,
    altered: Event,
) -> Move<KnownDeviceStage> {
    told(told(known_first(headers, e), known_step(headers), created), known_step(headers), altered)
}

/// Every question starts with the table: it is made first, whatever the request holds, and the
/// question fails where that does.
pub proof fn law_known_device_starts_with_the_table(
    headers: Map<Seq<char>, Seq<Seq<u8>>>,
    e: Event,
    created: Event,
)
    ensures
        makes_the_table(
            known_first(headers, e),
            created,
            told(known_first(headers, e), known_step(headers), created),
        ),
{
}

/// A question that lacks its address or its device, or whose address is not in URL-safe base64 or
/// not in UTF-8, is refused for that; the address comes first, its encoding last.
pub proof fn law_known_device_needs_address_and_device(
    headers: Map<Seq<char>, Seq<Seq<u8>>>,
    e: Event,
    created: Event,
    altered: Event,
    bytes: Seq<u8>,
)
    requires
        !(created is Failed),
    ensures
        header_text(headers, "x-request-email"@) is None ==> fails(
            known_third(headers, e, created, altered),
            Failure::BadRequest("X-Request-Email value is required"@),
        ),
        header_text(headers, "x-request-email"@) is Some && header_text(
            headers,
            "x-device-identifier"@,
        ) is None ==> fails(
            known_third(headers, e, created, altered),
            Failure::BadRequest("X-Device-Identifier value is required"@),
        ),
        header_text(headers, "x-device-identifier"@) is Some && (header_text(
            headers,
            "x-request-email"@,
        ) matches Some(raw) && forall|b: Seq<u8>| #[trigger] base64url_text(b) != raw) ==> fails(
            known_third(headers, e, created, altered),
            Failure::BadRequest("X-Request-Email value failed to decode as base64url"@),
        ),
        header_text(headers, "x-device-identifier"@) is Some && header_text(
            headers,
            "x-request-email"@,
        ) == Some(base64url_text(bytes)) && !vstd::utf8::valid_utf8(bytes) ==> fails(
            known_third(headers, e, created, altered),
            Failure::BadRequest("X-Request-Email value failed to decode as UTF-8"@),
        ),
{
    if let Some(raw) = header_text(headers, "x-request-email"@) {
        law_unreadable_text_is_told_apart(raw, bytes);
    }
}

/// A question with an address and a device, once the table is there: the account is looked up by
/// the address in lower case; where there is none the device is not known; where there is one the
/// device is looked up for it, and is known exactly where it is found. A statement that fails is
/// answered so.
pub proof fn law_known_device_is_looked_up(
    headers: Map<Seq<char>, Seq<Seq<u8>>>,
    email: Seq<char>,
    device_identifier: Seq<char>,
    e: Event,
    created: Event,
    altered: Event,
    account: Event,
    device: Event,
)
    requires
        !(created is Failed),
        header_text(headers, "x-request-email"@) == Some(
            base64url_text(vstd::utf8::encode_utf8(email)),
        ),
        header_text(headers, "x-device-identifier"@) == Some(device_identifier),
    ensures
        asks_for(
            known_third(headers, e, created, altered),
            USER_ID_BY_EMAIL@,
            Seq::empty().push(Bound::Text(lowercase(email))),
            Fetch::FirstId,
        ),
        ({
            let step = known_step(headers);
            let fourth = told(known_third(headers, e, created, altered), step, account);
            let fifth = told(fourth, step, device);
            match account {
                Event::Id(None) => shows_document(fourth, Document::Bool(false)) && shows_document(
                    fifth,
                    Document::Bool(false),
                ),
                Event::Id(Some(user_id)) => {
                    &&& asks_for(
                        fourth,
                        DEVICE_IS_KNOWN@,
                        Seq::empty().push(Bound::Text(user_id)).push(
                            Bound::Text(device_identifier),
                        ),
                        Fetch::FirstOk,
                    )
                    &&& match device {
                        Event::Present(Some(_)) => shows_document(fifth, Document::Bool(true)),
                        Event::Present(None) => shows_document(fifth, Document::Bool(false)),
                        Event::Failed(f) => fails_for(fifth, f),
                        _ => fails(fifth, Failure::Internal),
                    }
                },
                Event::Failed(f) => fails_for(fourth, f),
                _ => fails(fourth, Failure::Internal),
            }
        }),
{
    law_encoded_text_reads_back(email);
}

/// For a store that holds the device of the account that is found, a whole request from its start
/// answers yes; for one that does not, it answers no.
pub proof fn law_known_device_answers_from_the_store(
    headers: Map<Seq<char>, Seq<Seq<u8>>>,
    email: Seq<char>,
    device_identifier: Seq<char>,
    user_id: Seq<char>,
    store: Store,
    e: Event,
    created: Event,
    altered: Event,
)
    requires
        !(created is Failed),
        header_text(headers, "x-request-email"@) == Some(
            base64url_text(vstd::utf8::encode_utf8(email)),
        ),
        header_text(headers, "x-device-identifier"@) == Some(device_identifier),
    ensures
        shows_document(
            told(
                told(
                    known_third(headers, e, created, altered),
                    known_step(headers),
                    Event::Id(Some(user_id)),
                ),
                known_step(headers),
                looked_for(store, is_known(user_id, device_identifier)),
            ),
            Document::Bool(store.devices.dom().contains((user_id, device_identifier))),
        ),
{
    law_known_device_is_looked_up(
        headers,
        email,
        device_identifier,
        e,
        created,
        altered,
        Event::Id(Some(user_id)),
        looked_for(store, is_known(user_id, device_identifier)),
    );
}

/// Whatever is told, no question is answered well before an account was looked up; and an answer
/// says yes only where a device was found.
pub proof fn law_known_device_answer_has_its_cause(
    headers: Map<Seq<char>, Seq<Seq<u8>>>,
    e: Event,
    created: Event,
    altered: Event,
    account: Event,
    device: Event,
)
    ensures
        ({
            let step = known_step(headers);
            let first = known_first(headers, e);
            let second = told(first, step, created);
            let third = known_third(headers, e, created, altered);
            let fourth = told(third, step, account);
            let fifth = told(fourth, step, device);
            &&& !(first matches Move::Answer(_))
            &&& !(second matches Move::Answer(Ok(_)))
            &&& !(third matches Move::Answer(Ok(_)))
            &&& fourth matches Move::Answer(Ok(r)) ==> account == Event::Id(None) && r.body
                == Document::Bool(false)
            &&& fifth matches Move::Answer(Ok(r)) ==> (r.body == Document::Bool(true)
                || r.body == Document::Bool(false)) && (r.body == Document::Bool(true) <==> (
            account matches Event::Id(Some(_)) && (device matches Event::Present(Some(_)))))
            &&& fifth is Answer
        }),
{
}

// ---- registering a push token ----

/// Registering a push token, in full: the table is made, the device is noted under the caller's
/// account and the identifier of the path, with what the client says of itself and the time, twice;
/// and the answer is empty.
pub proof fn law_push_token_in_full(
    user_id: Seq<char>,
    headers: Map<Seq<char>, Seq<Seq<u8>>>,
    device_identifier: Seq<char>,
    id: Seq<char>,
    now: Timestamp,
    e: Event,
    created: Event,
    altered: Event,
    noted: Event,
)
    ensures
        ({
            let step = |s: DeviceTokenState, e: Event|
                device_token_move(user_id, headers, device_identifier, s, e, id, now);
            let first = step(DeviceTokenState::Start, e);
            let second = told(first, step, created);
            let third = told(second, step, altered);
            let fourth = told(third, step, noted);
            &&& makes_the_table(first, created, second)
            &&& !(created is Failed) ==> asks_for(
                third,
                NOTE_DEVICE@,
                Seq::empty().push(Bound::Text(id)).push(Bound::Text(user_id)).push(
                    Bound::Text(device_identifier),
                ).push(
                    match inferred_name(headers) {
                        Some(name) => Bound::Text(name),
                        None => Bound::Null,
                    },
                ).push(
                    match inferred_type(headers) {
                        Some(n) => Bound::Integer(n),
                        None => Bound::Null,
                    },
                ).push(Bound::Text(now.text())).push(Bound::Text(now.text())),
                Fetch::Nothing,
            )
            &&& !(created is Failed) ==> match noted {
                Event::Done => shows_document(fourth, Document::Null),
                Event::Failed(f) => fails_for(fourth, f),
                _ => fails(fourth, Failure::Internal),
            }
        }),
{
}

// ---- what a client says of itself ----

/// A client's name is what it says of its name, and then, after a blank, of its version; white space
/// around each does not matter, and nothing but white space is as nothing. Without a name there is
/// none.
pub proof fn law_client_names_itself(
    headers: Map<Seq<char>, Seq<Seq<u8>>>,
    a: Seq<char>,
    client: Seq<char>,
    b: Seq<char>,
    c: Seq<char>,
    version: Seq<char>,
    d: Seq<char>,
)
    requires
        blank(a) && blank(b) && blank(c) && blank(d),
        tight(client) && tight(version),
        client.len() > 0 && version.len() > 0,
    ensures
        header_text(headers, "bitwarden-client-name"@) == Some(a + client + b) ==> {
            &&& header_text(headers, "bitwarden-client-version"@) == Some(c + version + d)
                ==> inferred_name(headers) == Some(client.push(' ') + version)
            &&& header_text(headers, "bitwarden-client-version"@) is None ==> inferred_name(headers)
                == Some(client)
            &&& header_text(headers, "bitwarden-client-version"@) == Some(c) ==> inferred_name(
                headers,
            ) == Some(client)
        },
        header_text(headers, "bitwarden-client-name"@) is None ==> inferred_name(headers) is None,
        header_text(headers, "bitwarden-client-name"@) == Some(a) ==> inferred_name(headers) is None,
{
    law_padding_is_trimmed(a, client, b);
    law_padding_is_trimmed(c, version, d);
    law_tight_is_trimmed(client);
    law_tight_is_trimmed(version);
    law_blank_is_trimmed_away(a);
    law_blank_is_trimmed_away(c);
    reveal_strlit(" ");
    assert(client + " "@ + version =~= client.push(' ') + version);
}

/// A client's type is the integer that it says, white space aside; and none where it says none, or
/// says something else.
pub proof fn law_client_says_its_type(
    headers: Map<Seq<char>, Seq<Seq<u8>>>,
    a: Seq<char>,
    n: i64,
    b: Seq<char>,
)
    requires
        blank(a) && blank(b),
    ensures
        header_text(headers, "device-type"@) == Some(a + decimal(n as int) + b) ==> inferred_type(
            headers,
        ) == Some(n as int),
        header_text(headers, "device-type"@) is None ==> inferred_type(headers) is None,
        header_text(headers, "device-type"@) matches Some(s) ==> match integer_of(
            trimmed(s),
            -0x8000000000000000,
            0x7fffffffffffffff,
        ) {
            Ok(m) => inferred_type(headers) == Some(m),
            Err(_) => inferred_type(headers) is None,
        },
{
    law_decimal_reads_back(n as int, i64::MIN as int, i64::MAX as int);
    law_padding_is_trimmed(a, decimal(n as int), b);
    law_tight_is_trimmed(decimal(n as int));
}

// ---- what is shown of a device ----

/// Whether a document shows a device with these of its parts, and nothing else.
pub open spec fn shows_device(
    document: Document,
    id: Seq<char>,
    name: Seq<char>,
    identifier: Seq<char>,
    device_type: int,
    created_at: Seq<char>,
    updated_at: Seq<char>,
    trusted: bool,
) -> bool {
    &&& member_of(document, "id"@) == Some(Document::Text(id))
    &&& member_of(document, "name"@) == Some(Document::Text(name))
    &&& member_of(document, "identifier"@) == Some(Document::Text(identifier))
    &&& member_of(document, "type"@) == Some(Document::Integer(device_type))
    &&& member_of(document, "creationDate"@) == Some(Document::Text(created_at))
    &&& member_of(document, "revisionDate"@) == Some(Document::Text(updated_at))
    &&& member_of(document, "lastSeenDate"@) == Some(Document::Text(updated_at))
    &&& member_of(document, "isTrusted"@) == Some(Document::Bool(trusted))
    &&& member_of(document, "object"@) == Some(Document::Text("device"@))
    &&& document matches Document::Object(members) && members.len() == 9
}

/// What stands in an option, or else this.
pub open spec fn or_else<T>(o: Option<T>, t: T) -> T {
    match o {
        Some(x) => x,
        None => t,
    }
}

proof fn lemma_device_members(members: Seq<(Seq<char>, Document)>)
    requires
        members.len() == 9,
        members[0].0 == "id"@,
        members[1].0 == "name"@,
        members[2].0 == "identifier"@,
        members[3].0 == "type"@,
        members[4].0 == "creationDate"@,
        members[5].0 == "revisionDate"@,
        members[6].0 == "lastSeenDate"@,
        members[7].0 == "isTrusted"@,
        members[8].0 == "object"@,
    ensures
        member(members, "id"@) == Some(members[0].1),
        member(members, "name"@) == Some(members[1].1),
        member(members, "identifier"@) == Some(members[2].1),
        member(members, "type"@) == Some(members[3].1),
        member(members, "creationDate"@) == Some(members[4].1),
        member(members, "revisionDate"@) == Some(members[5].1),
        member(members, "lastSeenDate"@) == Some(members[6].1),
        member(members, "isTrusted"@) == Some(members[7].1),
        member(members, "object"@) == Some(members[8].1),
{
    reveal_strlit("id");
    reveal_strlit("name");
    reveal_strlit("identifier");
    reveal_strlit("type");
    reveal_strlit("creationDate");
    reveal_strlit("revisionDate");
    reveal_strlit("lastSeenDate");
    reveal_strlit("isTrusted");
    reveal_strlit("object");
    assert("id"@.len() == 2 && "name"@.len() == 4 && "identifier"@.len() == 10 && "type"@.len() == 4
        && "creationDate"@.len() == 12 && "revisionDate"@.len() == 12 && "lastSeenDate"@.len() == 12
        && "isTrusted"@.len() == 9 && "object"@.len() == 6);
    assert("name"@[0] == 'n' && "type"@[0] == 't');
    assert("creationDate"@[0] == 'c' && "revisionDate"@[0] == 'r' && "lastSeenDate"@[0] == 'l');
    lemma_member_at(members, "id"@, 0);
    lemma_member_at(members, "name"@, 1);
    lemma_member_at(members, "identifier"@, 2);
    lemma_member_at(members, "type"@, 3);
    lemma_member_at(members, "creationDate"@, 4);
    lemma_member_at(members, "revisionDate"@, 5);
    lemma_member_at(members, "lastSeenDate"@, 6);
    lemma_member_at(members, "isTrusted"@, 7);
    lemma_member_at(members, "object"@, 8);
}

/// A row as it is listed shows what stands in its columns; a text that is not there as empty, a type
/// as zero; and a device as trusted where a digest is stored for it.
pub proof fn law_row_is_shown_as_stored(row: Seq<(Seq<char>, Datum)>)
    ensures
        shows_device(
            row_document(row),
            or_else(text_in(row, "id"@), Seq::empty()),
            or_else(text_in(row, "device_name"@), Seq::empty()),
            or_else(text_in(row, "device_identifier"@), Seq::empty()),
            or_else(integer_in(row, "device_type"@), 0),
            or_else(text_in(row, "created_at"@), Seq::empty()),
            or_else(text_in(row, "updated_at"@), Seq::empty()),
            text_in(row, "remember_token_hash"@) is Some,
        ),
{
    lemma_device_members(row_document(row)->Object_0);
}

/// Whether the row lacks a type that the client says, or a name, where all but white space counts,
/// that the client says.
pub open spec fn lacks(
    row: Seq<(Seq<char>, Datum)>,
    name: Option<Seq<char>>,
    device_type: Option<int>,
) -> bool {
    ||| device_type is Some && integer_in(row, "device_type"@) is None
    ||| name is Some && (text_in(row, "device_name"@) matches Some(s) ==> blank(s))
}

/// One device is shown with the name and the type that the client says, before what is stored, and
/// that before nothing; whether or not the row lacks something. It was last seen now where the row
/// lacks something, and else when the row says. The rest is as it is stored.
pub proof fn law_device_is_shown_as_it_says(
    row: Seq<(Seq<char>, Datum)>,
    name: Option<Seq<char>>,
    device_type: Option<int>,
    now: Timestamp,
)
    ensures
        shows_device(
            shown_device(row, name, device_type, now),
            or_else(text_in(row, "id"@), Seq::empty()),
            or_else(name, or_else(text_in(row, "device_name"@), Seq::empty())),
            or_else(text_in(row, "device_identifier"@), Seq::empty()),
            or_else(device_type, or_else(integer_in(row, "device_type"@), 0)),
            or_else(text_in(row, "created_at"@), Seq::empty()),
            if lacks(row, name, device_type) {
                now.text()
            } else {
                or_else(text_in(row, "updated_at"@), Seq::empty())
            },
            text_in(row, "remember_token_hash"@) is Some,
        ),
{
    lemma_device_members(shown_device(row, name, device_type, now)->Object_0);
    if let Some(s) = text_in(row, "device_name"@) {
        law_blank_is_trimmed_away(s);
    }
}

/// Whether a device is settled: written anew where the row lacks something, with what the client
/// says before what is stored, and then shown, unless the statement does not bind; and shown at
/// once where it lacks nothing.
pub open spec fn settles(
    m: Move<GetDeviceStage>,
    after_event: Move<GetDeviceStage>,
    headers: Map<Seq<char>, Seq<Seq<u8>>>,
    row: Seq<(Seq<char>, Datum)>,
    now: Timestamp,
    event: Event,
) -> bool {
    let name = inferred_name(headers);
    let device_type = inferred_type(headers);
    let document = shown_device(row, name, device_type, now);
    if lacks(row, name, device_type) {
        &&& asks_for(
            m,
            UPDATE_DEVICE@,
            Seq::empty().push(
                match (name, text_in(row, "device_name"@)) {
                    (Some(said), _) => Bound::Text(said),
                    (None, Some(stored)) => Bound::Text(stored),
                    (None, None) => Bound::Null,
                },
            ).push(
                match (device_type, integer_in(row, "device_type"@)) {
                    (Some(said), _) => Bound::Integer(said),
                    (None, Some(stored)) => Bound::Integer(stored),
                    (None, None) => Bound::Null,
                },
            ).push(Bound::Text(now.text())).push(
                Bound::Text(or_else(text_in(row, "id"@), Seq::empty())),
            ),
            Fetch::Nothing,
        )
        &&& if event matches Event::Failed(QueryFailure::Bind(_)) {
            fails(after_event, Failure::Database)
        } else {
            shows_document(after_event, document)
        }
    } else {
        shows_document(m, document)
    }
}

/// Showing one device, in full. The table is made; the device is looked up for the caller's account
/// and the identifier of the path. Where it is found it is settled. Where it is not it is added,
/// with the fresh identifier and the time of that step, looked up by that identifier, and settled
/// with that time.
pub proof fn law_device_in_full(
    user_id: Seq<char>,
    headers: Map<Seq<char>, Seq<Seq<u8>>>,
    device_identifier: Seq<char>,
    id: Seq<char>,
    now: Timestamp,
    other_id: Seq<char>,
    later: Timestamp,
    e: Event,
    created: Event,
    altered: Event,
    found: Event,
    fifth_event: Event,
    sixth_event: Event,
    seventh_event: Event,
)
    ensures
        ({
            let step = |s: GetDeviceStage, e: Event|
                get_device_move(user_id, headers, device_identifier, s, e, id, now);
            let step_later = |s: GetDeviceStage, e: Event|
                get_device_move(user_id, headers, device_identifier, s, e, other_id, later);
            let first = step(GetDeviceStage::Start, e);
            let second = told(first, step, created);
            let third = told(second, step, altered);
            let fourth = told(third, step, found);
            let fifth = told(fourth, step_later, fifth_event);
            let sixth = told(fifth, step_later, sixth_event);
            let seventh = told(sixth, step_later, seventh_event);
            &&& makes_the_table(first, created, second)
            &&& !(created is Failed) ==> asks_for(
                third,
                DEVICE_BY_IDENTIFIER@,
                Seq::empty().push(Bound::Text(user_id)).push(Bound::Text(device_identifier)),
                Fetch::FirstRow,
            )
            &&& !(created is Failed) ==> match found {
                Event::Failed(f) => fails_for(fourth, f),
                Event::Row(Some(row)) => settles(fourth, fifth, headers, row, now, fifth_event),
                Event::Row(None) => {
                    &&& asks_for(
                        fourth,
                        INSERT_DEVICE@,
                        Seq::empty().push(Bound::Text(id)).push(Bound::Text(user_id)).push(
                            Bound::Text(device_identifier),
                        ).push(
                            match inferred_name(headers) {
                                Some(name) => Bound::Text(name),
                                None => Bound::Null,
                            },
                        ).push(
                            match inferred_type(headers) {
                                Some(n) => Bound::Integer(n),
                                None => Bound::Null,
                            },
                        ).push(Bound::Text(now.text())).push(Bound::Text(now.text())),
                        Fetch::Nothing,
                    )
                    &&& match fifth_event {
                        Event::Failed(f) => fails_for(fifth, f),
                        Event::Done => {
                            &&& asks_for(
                                fifth,
                                DEVICE_BY_ID@,
                                Seq::empty().push(Bound::Text(id)),
                                Fetch::FirstRow,
                            )
                            &&& match sixth_event {
                                Event::Failed(f) => fails_for(sixth, f),
                                Event::Row(Some(row)) => settles(
                                    sixth,
                                    seventh,
                                    headers,
                                    row,
                                    now,
                                    seventh_event,
                                ),
                                _ => fails(sixth, Failure::Internal),
                            }
                        },
                        _ => fails(fifth, Failure::Internal),
                    }
                },
                _ => fails(fourth, Failure::Internal),
            }
        }),
{
    if let Event::Row(Some(row)) = found {
        lemma_settles(user_id, headers, device_identifier, other_id, later, row, now, fifth_event);
    }
    if let Event::Row(Some(row)) = sixth_event {
        lemma_settles(user_id, headers, device_identifier, other_id, later, row, now, seventh_event);
    }
}

proof fn lemma_settles(
    user_id: Seq<char>,
    headers: Map<Seq<char>, Seq<Seq<u8>>>,
    device_identifier: Seq<char>,
    id: Seq<char>,
    later: Timestamp,
    row: Seq<(Seq<char>, Datum)>,
    now: Timestamp,
    event: Event,
)
    ensures
        settles(
            settle_move(headers, row, now),
            told(
                settle_move(headers, row, now),
                |s: GetDeviceStage, e: Event|
                    get_device_move(user_id, headers, device_identifier, s, e, id, later),
                event,
            ),
            headers,
            row,
            now,
            event,
        ),
{
    if let Some(s) = text_in(row, "device_name"@) {
        law_blank_is_trimmed_away(s);
    }
}

// ---- listing ----

/// Listing devices, in full: the table is made, the rows of the caller's account are asked for, and
/// each is shown as it is stored, in the order in which they came.
pub proof fn law_listing_in_full(
    user_id: Seq<char>,
    e: Event,
    created: Event,
    altered: Event,
    listed: Event,
)
    ensures
        ({
            let step = |s: GetDevicesState, e: Event| get_devices_move(user_id, s, e);
            let first = step(GetDevicesState::Start, e);
            let second = told(first, step, created);
            let third = told(second, step, altered);
            let fourth = told(third, step, listed);
            &&& makes_the_table(first, created, second)
            &&& !(created is Failed) ==> asks_for(
                third,
                DEVICES_OF_USER@,
                Seq::empty().push(Bound::Text(user_id)),
                Fetch::AllRows,
            )
            &&& !(created is Failed) ==> match listed {
                Event::Rows(rows) => fourth matches Move::Answer(Ok(r)) && r.status == 200
                    && r.headers == Map::<Seq<char>, Seq<Seq<u8>>>::empty() && is_list(r.body, rows),
                Event::Failed(f) => fails_for(fourth, f),
                _ => fails(fourth, Failure::Internal),
            }
        }),
{
    if let Event::Rows(rows) = listed {
        lemma_list(rows);
    }
}

/// Whether a document is the list of these rows.
pub open spec fn is_list(document: Document, rows: Seq<Seq<(Seq<char>, Datum)>>) -> bool {
    &&& member_of(document, "object"@) == Some(Document::Text("list"@))
    &&& member_of(document, "continuationToken"@) == Some(Document::Null)
    &&& document matches Document::Object(members) && members.len() == 3
    &&& member_of(document, "data"@) matches Some(Document::Array(items)) && items.len()
        == rows.len() && forall|i: int|
        0 <= i < rows.len() ==> #[trigger] items[i] == row_document(rows[i])
}

proof fn lemma_list(rows: Seq<Seq<(Seq<char>, Datum)>>)
    ensures
        is_list(device_list(rows), rows),
{
    reveal_strlit("data");
    reveal_strlit("object");
    reveal_strlit("continuationToken");
    let members = device_list(rows)->Object_0;
    assert("data"@.len() == 4 && "object"@.len() == 6 && "continuationToken"@.len() == 17);
    lemma_member_at(members, "data"@, 0);
    lemma_member_at(members, "object"@, 1);
    lemma_member_at(members, "continuationToken"@, 2);
}

} // verus!
