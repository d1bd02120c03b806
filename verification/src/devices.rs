//! The devices of a user.
use vstd::prelude::*;
use axum::http::HeaderMap;
use crate::clock::{current_time, Timestamp};
use crate::codec::{decode_text, encoded_text, lowercase, new_row_id, random_uuid, TextError};
use crate::error::{bad_request, AppError, Failure};
use crate::flow::{
    create_devices, create_devices_statement, database_error, document_reply, document_response,
    ensure_devices_table, failure_of, table_move, table_rank, Action, DbFailure, Event, Move, Outcome,
    QueryFailure, Step, TableMove, TableStage, TableStep, Work,
};
use crate::headers::{header_i64, header_integer, header_str, header_text, header_values};
use crate::json::{no_members, Document, Json, Members};
use crate::request::text_view;
use crate::sql::{
    integer_in, integer_view, js_opt_i64, js_opt_string, optional_integer, optional_text, query,
    safe_integer, text_in, Bound, Datum, Fetch, Query, Row, Statement,
};
use crate::text::{law_blank_is_trimmed_away, law_trimmed_is_tight, trim, trimmed, white_space};

verus! {

broadcast use vstd::string::group_string_axioms;

// ---- what the client says of itself ----

/// A text without the white space around it; nothing where nothing is left.
pub open spec fn nonblank(text: Option<Seq<char>>) -> Option<Seq<char>> {
    match text {
        Some(s) => if trimmed(s).len() > 0 {
            Some(trimmed(s))
        } else {
            None
        },
        None => None,
    }
}

/// The name that a client gives itself: its name, and its version where it says one.
pub open spec fn inferred_name(headers: Map<Seq<char>, Seq<Seq<u8>>>) -> Option<Seq<char>> {
    match (
        nonblank(header_text(headers, "bitwarden-client-name"@)),
        nonblank(header_text(headers, "bitwarden-client-version"@)),
    ) {
        (Some(client), Some(version)) => Some(client + " "@ + version),
        (Some(client), None) => Some(client),
        _ => None,
    }
}

/// The type that a client says it is of.
pub open spec fn inferred_type(headers: Map<Seq<char>, Seq<Seq<u8>>>) -> Option<int> {
    header_integer(headers, "device-type"@)
}

fn nonblank_header(headers: &HeaderMap, name: &str) -> (text: Option<String>)
    ensures
        text_view(text) == nonblank(header_text(header_values(*headers), name@)),
{
    match header_str(headers, name) {
        Some(s) => {
            let s = trim(s.as_str());
            if s.is_empty() {
                None
            } else {
                Some(s.to_owned())
            }
        },
        None => None,
    }
}

/// The name that a client gives itself.
pub fn infer_device_name(headers: &HeaderMap) -> (name: Option<String>)
    ensures
        text_view(name) == inferred_name(header_values(*headers)),
{
    let client = nonblank_header(headers, "bitwarden-client-name");
    let version = nonblank_header(headers, "bitwarden-client-version");
    match (client, version) {
        (Some(c), Some(v)) => {
            let mut name = c;
            name.append(" ");
            name.append(v.as_str());
            Some(name)
        },
        (Some(c), None) => Some(c),
        _ => None,
    }
}

/// The type that a client says it is of.
pub fn infer_device_type(headers: &HeaderMap) -> (t: Option<i64>)
    ensures
        integer_view(t) == inferred_type(header_values(*headers)),
{
    header_i64(headers, "device-type")
}

// ---- is the device known? ----

/// The identifier of the account with this address.
pub const USER_ID_BY_EMAIL: &'static str = "SELECT id FROM users WHERE email = ?1";

/// Whether the account has this device.
pub const DEVICE_IS_KNOWN: &'static str =
    "SELECT 1 AS ok FROM devices WHERE user_id = ?1 AND device_identifier = ?2 LIMIT 1";

/// Where the question whether a device is known stands.
#[derive(Debug)]
pub enum KnownDeviceState {
    Start,
    Preparing(TableStage),
    FindingUser { device_identifier: String },
    FindingDevice,
}

/// Where the question stands, as a value.
#[verifier::ext_equal]
pub enum KnownDeviceStage {
    Start,
    Preparing(TableStage),
    FindingUser { device_identifier: Seq<char> },
    FindingDevice,
}

impl View for KnownDeviceState {
    type V = KnownDeviceStage;

    open spec fn view(&self) -> KnownDeviceStage {
        match self {
            KnownDeviceState::Start => KnownDeviceStage::Start,
            KnownDeviceState::Preparing(t) => KnownDeviceStage::Preparing(*t),
            KnownDeviceState::FindingUser { device_identifier } => KnownDeviceStage::FindingUser {
                device_identifier: device_identifier@,
            },
            KnownDeviceState::FindingDevice => KnownDeviceStage::FindingDevice,
        }
    }
}

/// What the request asks about: an address, in lower case, and a device. The address comes first
/// in what is missed; its encoding is looked at last.
pub open spec fn known_device_request(headers: Map<Seq<char>, Seq<Seq<u8>>>) -> Result<
    (Seq<char>, Seq<char>),
    Failure,
> {
    match (header_text(headers, "x-request-email"@), header_text(headers, "x-device-identifier"@)) {
        (None, _) => Err(Failure::BadRequest("X-Request-Email value is required"@)),
        (Some(_), None) => Err(Failure::BadRequest("X-Device-Identifier value is required"@)),
        (Some(email), Some(device)) => match encoded_text(email) {
            Err(TextError::Base64) => Err(
                Failure::BadRequest("X-Request-Email value failed to decode as base64url"@),
            ),
            Err(TextError::Utf8) => Err(
                Failure::BadRequest("X-Request-Email value failed to decode as UTF-8"@),
            ),
            Ok(email) => Ok((lowercase(email), device)),
        },
    }
}

/// Reads what the request asks about.
pub fn read_known_device_request(headers: &HeaderMap) -> (r: Result<(String, String), AppError>)
    ensures
        match r {
            Ok((email, device)) => known_device_request(header_values(*headers)) == Ok::<
                (Seq<char>, Seq<char>),
                Failure,
            >((email@, device@)),
            Err(e) => known_device_request(header_values(*headers)) == Err::<
                (Seq<char>, Seq<char>),
                Failure,
            >(e@),
        },
{
    let email = match header_str(headers, "x-request-email") {
        Some(email) => email,
        None => {
            return Err(bad_request("X-Request-Email value is required"));
        },
    };
    let device = match header_str(headers, "x-device-identifier") {
        Some(device) => device,
        None => {
            return Err(bad_request("X-Device-Identifier value is required"));
        },
    };
    match decode_text(email.as_str()) {
        Ok(email) => Ok((email.as_str().to_lowercase(), device)),
        Err(TextError::Base64) => Err(
            bad_request("X-Request-Email value failed to decode as base64url"),
        ),
        Err(TextError::Utf8) => Err(bad_request("X-Request-Email value failed to decode as UTF-8")),
    }
}

/// How the question whether a device is known goes on. An address that no account has is answered
/// as a device that is not known.
pub open spec fn knowndevice_move(
    headers: Map<Seq<char>, Seq<Seq<u8>>>,
    stage: KnownDeviceStage,
    event: Event,
) -> Move<KnownDeviceStage> {
    match stage {
        KnownDeviceStage::Start => Move::Perform(
            Work::Query(create_devices()),
            KnownDeviceStage::Preparing(TableStage::Create),
        ),
        KnownDeviceStage::Preparing(table) => match table_move(table, event) {
            TableMove::Run(q, next) => Move::Perform(
                Work::Query(q),
                KnownDeviceStage::Preparing(next),
            ),
            TableMove::Failed(f) => Move::Answer(Err(f)),
            TableMove::Ready => match known_device_request(headers) {
                Err(f) => Move::Answer(Err(f)),
                Ok((email, device)) => Move::Perform(
                    Work::Query(query(USER_ID_BY_EMAIL@, Fetch::FirstId).bind(Bound::Text(email))),
                    KnownDeviceStage::FindingUser { device_identifier: device },
                ),
            },
        },
        KnownDeviceStage::FindingUser { device_identifier } => match event {
            Event::Failed(f) => Move::Answer(Err(failure_of(f))),
            Event::Id(None) => Move::Answer(Ok(document_response(200, Document::Bool(false)))),
            Event::Id(Some(user_id)) => Move::Perform(
                Work::Query(
                    query(DEVICE_IS_KNOWN@, Fetch::FirstOk).bind(Bound::Text(user_id)).bind(
                        Bound::Text(device_identifier),
                    ),
                ),
                KnownDeviceStage::FindingDevice,
            ),
            _ => Move::Answer(Err(Failure::Internal)),
        },
        KnownDeviceStage::FindingDevice => match event {
            Event::Failed(f) => Move::Answer(Err(failure_of(f))),
            Event::Present(found) => Move::Answer(
                Ok(document_response(200, Document::Bool(found is Some))),
            ),
            _ => Move::Answer(Err(Failure::Internal)),
        },
    }
}

/// Goes on with the question whether a device is known.
pub fn knowndevice(headers: &HeaderMap, state: KnownDeviceState, outcome: Outcome) -> (step: Step<
    KnownDeviceState,
>)
    ensures
        step@ == knowndevice_move(header_values(*headers), state@, outcome@),
{
    match state {
        KnownDeviceState::Start => Step::Perform(
            Action::Query(create_devices_statement()),
            KnownDeviceState::Preparing(TableStage::Create),
        ),
        KnownDeviceState::Preparing(table) => match ensure_devices_table(table, &outcome) {
            TableStep::Run(s, next) => Step::Perform(
                Action::Query(s),
                KnownDeviceState::Preparing(next),
            ),
            TableStep::Failed(e) => Step::Answer(Err(e)),
            TableStep::Ready => match read_known_device_request(headers) {
                Err(e) => Step::Answer(Err(e)),
                Ok((email, device_identifier)) => Step::Perform(
                    Action::Query(
                        Statement::new(USER_ID_BY_EMAIL, Fetch::FirstId).bind_text(email.as_str()),
                    ),
                    KnownDeviceState::FindingUser { device_identifier },
                ),
            },
        },
        KnownDeviceState::FindingUser { device_identifier } => match outcome {
            Outcome::Failed(f) => Step::Answer(Err(database_error(f))),
            Outcome::Id(None) => Step::Answer(Ok(document_reply(200, Json::Bool(false)))),
            Outcome::Id(Some(user_id)) => Step::Perform(
                Action::Query(
                    Statement::new(DEVICE_IS_KNOWN, Fetch::FirstOk).bind_text(
                        user_id.as_str(),
                    ).bind_text(device_identifier.as_str()),
                ),
                KnownDeviceState::FindingDevice,
            ),
            _ => Step::Answer(Err(AppError::Internal)),
        },
        KnownDeviceState::FindingDevice => match outcome {
            Outcome::Failed(f) => Step::Answer(Err(database_error(f))),
            Outcome::Present(found) => Step::Answer(
                Ok(document_reply(200, Json::Bool(found.is_some()))),
            ),
            _ => Step::Answer(Err(AppError::Internal)),
        },
    }
}

// ---- registering a push token ----

/// Notes that a device was seen: a new row, or the row that is there with a new time and with what
/// the device says of itself.
pub const NOTE_DEVICE: &'static str =
    "INSERT INTO devices (id, user_id, device_identifier, device_name, device_type, remember_token_hash, created_at, updated_at)
         VALUES (?1, ?2, ?3, ?4, ?5, NULL, ?6, ?7)
         ON CONFLICT(user_id, device_identifier) DO UPDATE SET
           updated_at = excluded.updated_at,
           device_name = COALESCE(excluded.device_name, devices.device_name),
           device_type = COALESCE(excluded.device_type, devices.device_type)";

/// Adds a device.
pub const INSERT_DEVICE: &'static str =
    "INSERT INTO devices (id, user_id, device_identifier, device_name, device_type, remember_token_hash, created_at, updated_at)
                 VALUES (?1, ?2, ?3, ?4, ?5, NULL, ?6, ?7)";

/// The parameters of a new row: made and last seen at the same time.
pub open spec fn new_device(
    sql: Seq<char>,
    id: Seq<char>,
    user_id: Seq<char>,
    device_identifier: Seq<char>,
    name: Option<Seq<char>>,
    device_type: Option<int>,
    now: Timestamp,
) -> Query {
    query(sql, Fetch::Nothing).bind(Bound::Text(id)).bind(Bound::Text(user_id)).bind(
        Bound::Text(device_identifier),
    ).bind(optional_text(name)).bind(optional_integer(device_type)).bind(
        Bound::Text(now.text()),
    ).bind(Bound::Text(now.text()))
}

fn new_device_statement(
    sql: &'static str,
    id: &str,
    user_id: &str,
    device_identifier: &str,
    name: Option<String>,
    device_type: Option<i64>,
    now: &Timestamp,
) -> (s: Statement)
    requires
        now.dated(),
    ensures
        s@ == new_device(
            sql@,
            id@,
            user_id@,
            device_identifier@,
            text_view(name),
            integer_view(device_type),
            *now,
        ),
{
    let now = now.to_rfc3339();
    Statement::new(sql, Fetch::Nothing).bind_text(id).bind_text(user_id).bind_text(
        device_identifier,
    ).bind(js_opt_string(name)).bind(js_opt_i64(device_type)).bind_text(now.as_str()).bind_text(
        now.as_str(),
    )
}

/// Where the registering of a push token stands.
#[derive(Clone, Copy, Debug, PartialEq, Eq, Structural)]
pub enum DeviceTokenState {
    Start,
    Preparing(TableStage),
    Noting,
}

impl View for DeviceTokenState {
    type V = DeviceTokenState;

    open spec fn view(&self) -> DeviceTokenState {
        *self
    }
}

/// How the registering goes on: the device is noted under the caller's account, with what it says
/// of itself.
pub open spec fn device_token_move(
    user_id: Seq<char>,
    headers: Map<Seq<char>, Seq<Seq<u8>>>,
    device_identifier: Seq<char>,
    state: DeviceTokenState,
    event: Event,
    id: Seq<char>,
    now: Timestamp,
) -> Move<DeviceTokenState> {
    match state {
        DeviceTokenState::Start => Move::Perform(
            Work::Query(create_devices()),
            DeviceTokenState::Preparing(TableStage::Create),
        ),
        DeviceTokenState::Preparing(table) => match table_move(table, event) {
            TableMove::Run(q, next) => Move::Perform(
                Work::Query(q),
                DeviceTokenState::Preparing(next),
            ),
            TableMove::Failed(f) => Move::Answer(Err(f)),
            TableMove::Ready => Move::Perform(
                Work::Query(
                    new_device(
                        NOTE_DEVICE@,
                        id,
                        user_id,
                        device_identifier,
                        inferred_name(headers),
                        inferred_type(headers),
                        now,
                    ),
                ),
                DeviceTokenState::Noting,
            ),
        },
        DeviceTokenState::Noting => match event {
            Event::Failed(f) => Move::Answer(Err(failure_of(f))),
            Event::Done => Move::Answer(Ok(document_response(200, Document::Null))),
            _ => Move::Answer(Err(Failure::Internal)),
        },
    }
}

/// Goes on with the registering, with the identifier and the time for a new row.
pub fn device_token_with(
    user_id: &str,
    headers: &HeaderMap,
    device_identifier: &str,
    state: DeviceTokenState,
    outcome: Outcome,
    id: &str,
    now: &Timestamp,
) -> (step: Step<DeviceTokenState>)
    requires
        now.dated(),
    ensures
        step@ == device_token_move(
            user_id@,
            header_values(*headers),
            device_identifier@,
            state@,
            outcome@,
            id@,
            *now,
        ),
{
    match state {
        DeviceTokenState::Start => Step::Perform(
            Action::Query(create_devices_statement()),
            DeviceTokenState::Preparing(TableStage::Create),
        ),
        DeviceTokenState::Preparing(table) => match ensure_devices_table(table, &outcome) {
            TableStep::Run(s, next) => Step::Perform(
                Action::Query(s),
                DeviceTokenState::Preparing(next),
            ),
            TableStep::Failed(e) => Step::Answer(Err(e)),
            TableStep::Ready => Step::Perform(
                Action::Query(
                    new_device_statement(
                        NOTE_DEVICE,
                        id,
                        user_id,
                        device_identifier,
                        infer_device_name(headers),
                        infer_device_type(headers),
                        now,
                    ),
                ),
                DeviceTokenState::Noting,
            ),
        },
        DeviceTokenState::Noting => match outcome {
            Outcome::Failed(f) => Step::Answer(Err(database_error(f))),
            Outcome::Done => Step::Answer(Ok(document_reply(200, Json::Null))),
            _ => Step::Answer(Err(AppError::Internal)),
        },
    }
}

/// Goes on with the registering of a push token. A new row is given a fresh identifier and the
/// current time.
pub fn device_token(
    user_id: &str,
    headers: &HeaderMap,
    device_identifier: &str,
    state: DeviceTokenState,
    outcome: Outcome,
) -> (step: Step<DeviceTokenState>)
    ensures
        exists|id: Seq<char>, now: Timestamp|
            random_uuid(id) && now.dated() && step@ == #[trigger] device_token_move(
                user_id@,
                header_values(*headers),
                device_identifier@,
                state@,
                outcome@,
                id,
                now,
            ),
{
    let id = new_row_id();
    let now = current_time();
    device_token_with(user_id, headers, device_identifier, state, outcome, id.as_str(), &now)
}

// ---- listing ----

/// The devices of an account, the one last seen first.
pub const DEVICES_OF_USER: &'static str =
    "SELECT id, device_identifier, device_name, device_type, remember_token_hash, created_at, updated_at
             FROM devices
             WHERE user_id = ?1
             ORDER BY updated_at DESC";

/// A device, as clients are shown it.
pub open spec fn device_document(
    id: Seq<char>,
    name: Seq<char>,
    identifier: Seq<char>,
    device_type: int,
    created_at: Seq<char>,
    updated_at: Seq<char>,
    trusted: bool,
) -> Document {
    Document::Object(
        no_members().push(("id"@, Document::Text(id))).push(("name"@, Document::Text(name))).push(
            ("identifier"@, Document::Text(identifier)),
        ).push(("type"@, Document::Integer(device_type))).push(
            ("creationDate"@, Document::Text(created_at)),
        ).push(("revisionDate"@, Document::Text(updated_at))).push(
            ("lastSeenDate"@, Document::Text(updated_at)),
        ).push(("isTrusted"@, Document::Bool(trusted))).push(("object"@, Document::Text("device"@))),
    )
}

fn device_json(
    id: &str,
    name: &str,
    identifier: &str,
    device_type: i64,
    created_at: &str,
    updated_at: &str,
    trusted: bool,
) -> (json: Json)
    ensures
        json@ == device_document(
            id@,
            name@,
            identifier@,
            device_type as int,
            created_at@,
            updated_at@,
            trusted,
        ),
{
    Members::new().with("id", Json::text(id)).with("name", Json::text(name)).with(
        "identifier",
        Json::text(identifier),
    ).with("type", Json::Integer(device_type)).with("creationDate", Json::text(created_at)).with(
        "revisionDate",
        Json::text(updated_at),
    ).with("lastSeenDate", Json::text(updated_at)).with("isTrusted", Json::Bool(trusted)).with(
        "object",
        Json::text("device"),
    ).object()
}

/// The text in a column, empty where there is none.
pub open spec fn text_or_empty(row: Seq<(Seq<char>, Datum)>, name: Seq<char>) -> Seq<char> {
    match text_in(row, name) {
        Some(s) => s,
        None => Seq::empty(),
    }
}

/// The integer in a column, zero where there is none.
pub open spec fn integer_or_zero(row: Seq<(Seq<char>, Datum)>, name: Seq<char>) -> int {
    match integer_in(row, name) {
        Some(n) => n,
        None => 0,
    }
}

fn row_text_or_empty(row: &Row, name: &str) -> (text: String)
    ensures
        text@ == text_or_empty(row@, name@),
{
    match row.text(name) {
        Some(s) => s,
        None => String::new(),
    }
}

/// Whether a device may sign in by the token that it remembers.
pub open spec fn is_trusted(row: Seq<(Seq<char>, Datum)>) -> bool {
    text_in(row, "remember_token_hash"@) is Some
}

/// A row of the table of devices, as clients are shown it.
pub open spec fn row_document(row: Seq<(Seq<char>, Datum)>) -> Document {
    device_document(
        text_or_empty(row, "id"@),
        text_or_empty(row, "device_name"@),
        text_or_empty(row, "device_identifier"@),
        integer_or_zero(row, "device_type"@),
        text_or_empty(row, "created_at"@),
        text_or_empty(row, "updated_at"@),
        is_trusted(row),
    )
}

/// Shows a row of the table of devices.
pub fn row_json(row: &Row) -> (json: Json)
    ensures
        json@ == row_document(row@),
{
    let id = row_text_or_empty(row, "id");
    let identifier = row_text_or_empty(row, "device_identifier");
    let name = row_text_or_empty(row, "device_name");
    let device_type: i64 = match row.integer("device_type") {
        Some(n) => n,
        None => 0,
    };
    let created_at = row_text_or_empty(row, "created_at");
    let updated_at = row_text_or_empty(row, "updated_at");
    let trusted = row.text("remember_token_hash").is_some();
    device_json(
        id.as_str(),
        name.as_str(),
        identifier.as_str(),
        device_type,
        created_at.as_str(),
        updated_at.as_str(),
        trusted,
    )
}

/// The list that clients are shown: each row, in the order of the rows.
pub open spec fn device_list(rows: Seq<Seq<(Seq<char>, Datum)>>) -> Document {
    Document::Object(
        no_members().push(
            (
                "data"@,
                Document::Array(rows.map_values(|r: Seq<(Seq<char>, Datum)>| row_document(r))),
            ),
        ).push(("object"@, Document::Text("list"@))).push(("continuationToken"@, Document::Null)),
    )
}

/// Shows the rows of the table of devices.
pub fn device_list_json(rows: &Vec<Row>) -> (json: Json)
    ensures
        json@ == device_list(rows@.map_values(|r: Row| r@)),
{
    let ghost model = rows@.map_values(|r: Row| r@);
    let mut items: Vec<Json> = Vec::new();
    let mut i: usize = 0;
    while i < rows.len()
        invariant
            i <= rows.len(),
            items.len() == i,
            model == rows@.map_values(|r: Row| r@),
            forall|j: int| 0 <= j < i ==> (#[trigger] items@[j])@ == row_document(model[j]),
        decreases rows.len() - i,
    {
        items.push(row_json(&rows[i]));
        i = i + 1;
    }
    let data = Json::Array(items);
    assert(data@->Array_0 =~= model.map_values(|r: Seq<(Seq<char>, Datum)>| row_document(r)));
    Members::new().with("data", data).with("object", Json::text("list")).with(
        "continuationToken",
        Json::Null,
    ).object()
}

/// Where the listing of devices stands.
#[derive(Clone, Copy, Debug, PartialEq, Eq, Structural)]
pub enum GetDevicesState {
    Start,
    Preparing(TableStage),
    Listing,
}

impl View for GetDevicesState {
    type V = GetDevicesState;

    open spec fn view(&self) -> GetDevicesState {
        *self
    }
}

/// How the listing goes on.
pub open spec fn get_devices_move(
    user_id: Seq<char>,
    state: GetDevicesState,
    event: Event,
) -> Move<GetDevicesState> {
    match state {
        GetDevicesState::Start => Move::Perform(
            Work::Query(create_devices()),
            GetDevicesState::Preparing(TableStage::Create),
        ),
        GetDevicesState::Preparing(table) => match table_move(table, event) {
            TableMove::Run(q, next) => Move::Perform(
                Work::Query(q),
                GetDevicesState::Preparing(next),
            ),
            TableMove::Failed(f) => Move::Answer(Err(f)),
            TableMove::Ready => Move::Perform(
                Work::Query(query(DEVICES_OF_USER@, Fetch::AllRows).bind(Bound::Text(user_id))),
                GetDevicesState::Listing,
            ),
        },
        GetDevicesState::Listing => match event {
            Event::Failed(f) => Move::Answer(Err(failure_of(f))),
            Event::Rows(rows) => Move::Answer(Ok(document_response(200, device_list(rows)))),
            _ => Move::Answer(Err(Failure::Internal)),
        },
    }
}

/// Goes on with the listing of devices.
pub fn get_devices(user_id: &str, state: GetDevicesState, outcome: Outcome) -> (step: Step<
    GetDevicesState,
>)
    ensures
        step@ == get_devices_move(user_id@, state@, outcome@),
{
    match state {
        GetDevicesState::Start => Step::Perform(
            Action::Query(create_devices_statement()),
            GetDevicesState::Preparing(TableStage::Create),
        ),
        GetDevicesState::Preparing(table) => match ensure_devices_table(table, &outcome) {
            TableStep::Run(s, next) => Step::Perform(
                Action::Query(s),
                GetDevicesState::Preparing(next),
            ),
            TableStep::Failed(e) => Step::Answer(Err(e)),
            TableStep::Ready => Step::Perform(
                Action::Query(Statement::new(DEVICES_OF_USER, Fetch::AllRows).bind_text(user_id)),
                GetDevicesState::Listing,
            ),
        },
        GetDevicesState::Listing => match outcome {
            Outcome::Failed(f) => Step::Answer(Err(database_error(f))),
            Outcome::Rows(rows) => Step::Answer(Ok(document_reply(200, device_list_json(&rows)))),
            _ => Step::Answer(Err(AppError::Internal)),
        },
    }
}

// ---- one device ----

/// The device of an account with this identifier.
pub const DEVICE_BY_IDENTIFIER: &'static str =
    "SELECT id, device_identifier, device_name, device_type, remember_token_hash, created_at, updated_at
             FROM devices
             WHERE user_id = ?1 AND device_identifier = ?2
             LIMIT 1";

/// The device in this row.
pub const DEVICE_BY_ID: &'static str =
    "SELECT id, device_identifier, device_name, device_type, remember_token_hash, created_at, updated_at
                 FROM devices
                 WHERE id = ?1
                 LIMIT 1";

/// Writes down what the device says of itself.
pub const UPDATE_DEVICE: &'static str =
    "UPDATE devices SET device_name = ?1, device_type = ?2, updated_at = ?3 WHERE id = ?4";

/// The first of the two that is there.
pub open spec fn first_of<T>(a: Option<T>, b: Option<T>) -> Option<T> {
    match a {
        Some(_) => a,
        None => b,
    }
}

/// Whether the row lacks something that the device now says: a type, or a name that is not blank.
pub open spec fn row_is_behind(
    row: Seq<(Seq<char>, Datum)>,
    name: Option<Seq<char>>,
    device_type: Option<int>,
) -> bool {
    ||| integer_in(row, "device_type"@) is None && device_type is Some
    ||| nonblank(text_in(row, "device_name"@)) is None && name is Some
}

/// A device as clients are shown it: what it says of itself goes before what is stored, and it was
/// last seen now where the row is written anew.
pub open spec fn shown_device(
    row: Seq<(Seq<char>, Datum)>,
    name: Option<Seq<char>>,
    device_type: Option<int>,
    now: Timestamp,
) -> Document {
    device_document(
        text_or_empty(row, "id"@),
        match first_of(name, text_in(row, "device_name"@)) {
            Some(s) => s,
            None => Seq::empty(),
        },
        text_or_empty(row, "device_identifier"@),
        match first_of(device_type, integer_in(row, "device_type"@)) {
            Some(n) => n,
            None => 0,
        },
        text_or_empty(row, "created_at"@),
        if row_is_behind(row, name, device_type) {
            now.text()
        } else {
            text_or_empty(row, "updated_at"@)
        },
        is_trusted(row),
    )
}

/// Writes the row anew: what the device says of itself goes before what is stored.
pub open spec fn update_device(
    row: Seq<(Seq<char>, Datum)>,
    name: Option<Seq<char>>,
    device_type: Option<int>,
    now: Timestamp,
) -> Query {
    query(UPDATE_DEVICE@, Fetch::Nothing).bind(
        optional_text(first_of(name, text_in(row, "device_name"@))),
    ).bind(optional_integer(first_of(device_type, integer_in(row, "device_type"@)))).bind(
        Bound::Text(now.text()),
    ).bind(Bound::Text(text_or_empty(row, "id"@)))
}

/// Where the showing of one device stands.
#[derive(Debug)]
pub enum GetDeviceState {
    Start,
    Preparing(TableStage),
    Finding,
    Inserting { id: String, now: Timestamp },
    Rereading { now: Timestamp },
    Updating { shown: Json },
}

/// Where the showing stands, as a value.
#[verifier::ext_equal]
pub enum GetDeviceStage {
    Start,
    Preparing(TableStage),
    Finding,
    Inserting { id: Seq<char>, now: Timestamp },
    Rereading { now: Timestamp },
    Updating { shown: Document },
}

impl View for GetDeviceState {
    type V = GetDeviceStage;

    open spec fn view(&self) -> GetDeviceStage {
        match self {
            GetDeviceState::Start => GetDeviceStage::Start,
            GetDeviceState::Preparing(t) => GetDeviceStage::Preparing(*t),
            GetDeviceState::Finding => GetDeviceStage::Finding,
            GetDeviceState::Inserting { id, now } => GetDeviceStage::Inserting {
                id: id@,
                now: *now,
            },
            GetDeviceState::Rereading { now } => GetDeviceStage::Rereading { now: *now },
            GetDeviceState::Updating { shown } => GetDeviceStage::Updating { shown: shown@ },
        }
    }
}

impl GetDeviceStage {
    /// The times that are kept have dates.
    pub open spec fn well_formed(self) -> bool {
        match self {
            GetDeviceStage::Inserting { now, .. } => now.dated(),
            GetDeviceStage::Rereading { now } => now.dated(),
            _ => true,
        }
    }
}

/// What is done once the row is there: it is written anew where it is behind, else shown.
pub open spec fn settle_move(
    headers: Map<Seq<char>, Seq<Seq<u8>>>,
    row: Seq<(Seq<char>, Datum)>,
    now: Timestamp,
) -> Move<GetDeviceStage> {
    let name = inferred_name(headers);
    let device_type = inferred_type(headers);
    if row_is_behind(row, name, device_type) {
        Move::Perform(
            Work::Query(update_device(row, name, device_type, now)),
            GetDeviceStage::Updating { shown: shown_device(row, name, device_type, now) },
        )
    } else {
        Move::Answer(Ok(document_response(200, shown_device(row, name, device_type, now))))
    }
}

/// How the showing of one device goes on. A device that is not there is added first. The row is
/// written anew where it is behind; whether that succeeds does not matter, but it has to be asked
/// for.
pub open spec fn get_device_move(
    user_id: Seq<char>,
    headers: Map<Seq<char>, Seq<Seq<u8>>>,
    device_identifier: Seq<char>,
    stage: GetDeviceStage,
    event: Event,
    id: Seq<char>,
    now: Timestamp,
) -> Move<GetDeviceStage> {
    match stage {
        GetDeviceStage::Start => Move::Perform(
            Work::Query(create_devices()),
            GetDeviceStage::Preparing(TableStage::Create),
        ),
        GetDeviceStage::Preparing(table) => match table_move(table, event) {
            TableMove::Run(q, next) => Move::Perform(
                Work::Query(q),
                GetDeviceStage::Preparing(next),
            ),
            TableMove::Failed(f) => Move::Answer(Err(f)),
            TableMove::Ready => Move::Perform(
                Work::Query(
                    query(DEVICE_BY_IDENTIFIER@, Fetch::FirstRow).bind(Bound::Text(user_id)).bind(
                        Bound::Text(device_identifier),
                    ),
                ),
                GetDeviceStage::Finding,
            ),
        },
        GetDeviceStage::Finding => match event {
            Event::Failed(f) => Move::Answer(Err(failure_of(f))),
            Event::Row(Some(row)) => settle_move(headers, row, now),
            Event::Row(None) => Move::Perform(
                Work::Query(
                    new_device(
                        INSERT_DEVICE@,
                        id,
                        user_id,
                        device_identifier,
                        inferred_name(headers),
                        inferred_type(headers),
                        now,
                    ),
                ),
                GetDeviceStage::Inserting { id, now },
            ),
            _ => Move::Answer(Err(Failure::Internal)),
        },
        GetDeviceStage::Inserting { id, now } => match event {
            Event::Failed(f) => Move::Answer(Err(failure_of(f))),
            Event::Done => Move::Perform(
                Work::Query(query(DEVICE_BY_ID@, Fetch::FirstRow).bind(Bound::Text(id))),
                GetDeviceStage::Rereading { now },
            ),
            _ => Move::Answer(Err(Failure::Internal)),
        },
        GetDeviceStage::Rereading { now } => match event {
            Event::Failed(f) => Move::Answer(Err(failure_of(f))),
            Event::Row(Some(row)) => settle_move(headers, row, now),
            _ => Move::Answer(Err(Failure::Internal)),
        },
        GetDeviceStage::Updating { shown } => match event {
            Event::Failed(QueryFailure::Bind(_)) => Move::Answer(Err(Failure::Database)),
            _ => Move::Answer(Ok(document_response(200, shown))),
        },
    }
}

fn settle(headers: &HeaderMap, row: &Row, now: Timestamp) -> (step: Step<GetDeviceState>)
    requires
        now.dated(),
    ensures
        step@ == settle_move(header_values(*headers), row@, now),
{
    let inferred_name = infer_device_name(headers);
    let inferred_type = infer_device_type(headers);
    let row_device_type = row.integer("device_type");
    let row_device_name = row.text("device_name");
    let row_id = row_text_or_empty(row, "id");
    let created_at = row_text_or_empty(row, "created_at");
    let row_updated_at = row_text_or_empty(row, "updated_at");
    let identifier = row_text_or_empty(row, "device_identifier");
    let trusted = row.text("remember_token_hash").is_some();

    let name_is_blank = match &row_device_name {
        Some(s) => trim(s.as_str()).is_empty(),
        None => true,
    };
    let should_update_type = row_device_type.is_none() && inferred_type.is_some();
    let should_update_name = name_is_blank && inferred_name.is_some();
    let updated = should_update_type || should_update_name;

    let best_name = match inferred_name {
        Some(s) => Some(s),
        None => row_device_name,
    };
    let best_type = match inferred_type {
        Some(n) => Some(n),
        None => row_device_type,
    };
    let name = match &best_name {
        Some(s) => s.clone(),
        None => String::new(),
    };
    let device_type: i64 = match best_type {
        Some(n) => n,
        None => 0,
    };
    let now = now.to_rfc3339();
    let updated_at = if updated {
        now.clone()
    } else {
        row_updated_at
    };
    let shown = device_json(
        row_id.as_str(),
        name.as_str(),
        identifier.as_str(),
        device_type,
        created_at.as_str(),
        updated_at.as_str(),
        trusted,
    );
    if updated {
        let update = Statement::new(UPDATE_DEVICE, Fetch::Nothing).bind(
            js_opt_string(best_name),
        ).bind(js_opt_i64(best_type)).bind_text(now.as_str()).bind_text(row_id.as_str());
        Step::Perform(Action::Query(update), GetDeviceState::Updating { shown })
    } else {
        Step::Answer(Ok(document_reply(200, shown)))
    }
}

/// Goes on with the showing of one device, with the identifier and the time for a new row.
pub fn get_device_by_identifier_with(
    user_id: &str,
    headers: &HeaderMap,
    device_identifier: &str,
    state: GetDeviceState,
    outcome: Outcome,
    id: &str,
    now: &Timestamp,
) -> (step: Step<GetDeviceState>)
    requires
        now.dated(),
        state@.well_formed(),
    ensures
        step@ == get_device_move(
            user_id@,
            header_values(*headers),
            device_identifier@,
            state@,
            outcome@,
            id@,
            *now,
        ),
        step@ matches Move::Perform(_, next) ==> next.well_formed(),
{
    match state {
        GetDeviceState::Start => Step::Perform(
            Action::Query(create_devices_statement()),
            GetDeviceState::Preparing(TableStage::Create),
        ),
        GetDeviceState::Preparing(table) => match ensure_devices_table(table, &outcome) {
            TableStep::Run(s, next) => Step::Perform(
                Action::Query(s),
                GetDeviceState::Preparing(next),
            ),
            TableStep::Failed(e) => Step::Answer(Err(e)),
            TableStep::Ready => Step::Perform(
                Action::Query(
                    Statement::new(DEVICE_BY_IDENTIFIER, Fetch::FirstRow).bind_text(
                        user_id,
                    ).bind_text(device_identifier),
                ),
                GetDeviceState::Finding,
            ),
        },
        GetDeviceState::Finding => match outcome {
            Outcome::Failed(f) => Step::Answer(Err(database_error(f))),
            Outcome::Row(Some(row)) => settle(headers, &row, *now),
            Outcome::Row(None) => Step::Perform(
                Action::Query(
                    new_device_statement(
                        INSERT_DEVICE,
                        id,
                        user_id,
                        device_identifier,
                        infer_device_name(headers),
                        infer_device_type(headers),
                        now,
                    ),
                ),
                GetDeviceState::Inserting { id: id.to_owned(), now: *now },
            ),
            _ => Step::Answer(Err(AppError::Internal)),
        },
        GetDeviceState::Inserting { id, now } => match outcome {
            Outcome::Failed(f) => Step::Answer(Err(database_error(f))),
            Outcome::Done => Step::Perform(
                Action::Query(Statement::new(DEVICE_BY_ID, Fetch::FirstRow).bind_text(id.as_str())),
                GetDeviceState::Rereading { now },
            ),
            _ => Step::Answer(Err(AppError::Internal)),
        },
        GetDeviceState::Rereading { now } => match outcome {
            Outcome::Failed(f) => Step::Answer(Err(database_error(f))),
            Outcome::Row(Some(row)) => settle(headers, &row, now),
            _ => Step::Answer(Err(AppError::Internal)),
        },
        GetDeviceState::Updating { shown } => match outcome {
            Outcome::Failed(DbFailure::Bind(_)) => Step::Answer(Err(AppError::Database)),
            _ => Step::Answer(Ok(document_reply(200, shown))),
        },
    }
}

/// Goes on with the showing of one device. A new row is given a fresh identifier and the current
/// time.
pub fn get_device_by_identifier(
    user_id: &str,
    headers: &HeaderMap,
    device_identifier: &str,
    state: GetDeviceState,
    outcome: Outcome,
) -> (step: Step<GetDeviceState>)
    requires
        state@.well_formed(),
    ensures
        exists|id: Seq<char>, now: Timestamp|
            random_uuid(id) && now.dated() && step@ == #[trigger] get_device_move(
                user_id@,
                header_values(*headers),
                device_identifier@,
                state@,
                outcome@,
                id,
                now,
            ),
        step@ matches Move::Perform(_, next) ==> next.well_formed(),
{
    let id = new_row_id();
    let now = current_time();
    get_device_by_identifier_with(
        user_id,
        headers,
        device_identifier,
        state,
        outcome,
        id.as_str(),
        &now,
    )
}

// ---- laws ----

/// The name that a client gives itself is never blank.
pub proof fn law_inferred_name_is_not_blank(headers: Map<Seq<char>, Seq<Seq<u8>>>)
    ensures
        inferred_name(headers) is Some ==> nonblank(inferred_name(headers)) is Some,
{
    if let Some(name) = inferred_name(headers) {
        let raw = header_text(headers, "bitwarden-client-name"@)->0;
        let client = trimmed(raw);
        law_trimmed_is_tight(raw);
        assert(name[0] == client[0]);
        law_blank_is_trimmed_away(name);
        assert(!white_space(name[0]));
    }
}

/// Whether `next` is `row` once it has been written anew: what the device says of itself goes
/// before what was stored, and it was seen now. Of a type that is no safe integer nothing is said.
pub open spec fn rewritten(
    row: Seq<(Seq<char>, Datum)>,
    next: Seq<(Seq<char>, Datum)>,
    name: Option<Seq<char>>,
    device_type: Option<int>,
    now: Timestamp,
) -> bool {
    &&& text_in(next, "id"@) == text_in(row, "id"@)
    &&& text_in(next, "device_identifier"@) == text_in(row, "device_identifier"@)
    &&& text_in(next, "created_at"@) == text_in(row, "created_at"@)
    &&& text_in(next, "remember_token_hash"@) == text_in(row, "remember_token_hash"@)
    &&& text_in(next, "device_name"@) == first_of(name, text_in(row, "device_name"@))
    &&& match first_of(device_type, integer_in(row, "device_type"@)) {
        Some(n) => safe_integer(n) ==> integer_in(next, "device_type"@) == Some(n),
        None => integer_in(next, "device_type"@) is None,
    }
    &&& text_in(next, "updated_at"@) == Some(now.text())
}

/// What a client is shown when the row is written anew is the row as it then is, and the row is no
/// longer behind: the same request again writes nothing. The type has to be a safe integer, for any
/// other does not come back as it was bound.
pub proof fn law_update_settles(
    headers: Map<Seq<char>, Seq<Seq<u8>>>,
    row: Seq<(Seq<char>, Datum)>,
    next: Seq<(Seq<char>, Datum)>,
    now: Timestamp,
    later: Timestamp,
)
    requires
        row_is_behind(row, inferred_name(headers), inferred_type(headers)),
        rewritten(row, next, inferred_name(headers), inferred_type(headers), now),
        first_of(inferred_type(headers), integer_in(row, "device_type"@)) matches Some(n)
            ==> safe_integer(n),
    ensures
        shown_device(row, inferred_name(headers), inferred_type(headers), now) == row_document(next),
        !row_is_behind(next, inferred_name(headers), inferred_type(headers)),
        settle_move(headers, next, later) == Move::<GetDeviceStage>::Answer(
            Ok(document_response(200, row_document(next))),
        ),
{
    law_inferred_name_is_not_blank(headers);
}

/// A row that holds what the device says of itself is not behind.
pub proof fn law_new_device_is_not_behind(
    headers: Map<Seq<char>, Seq<Seq<u8>>>,
    row: Seq<(Seq<char>, Datum)>,
)
    requires
        text_in(row, "device_name"@) == inferred_name(headers),
        integer_in(row, "device_type"@) == inferred_type(headers),
    ensures
        !row_is_behind(row, inferred_name(headers), inferred_type(headers)),
{
    law_inferred_name_is_not_blank(headers);
}

/// A client that says nothing of itself is shown the row as it is listed, and nothing is written.
pub proof fn law_silent_client_sees_the_row(row: Seq<(Seq<char>, Datum)>, now: Timestamp)
    ensures
        shown_device(row, None, None, now) == row_document(row),
        !row_is_behind(row, None, None),
{
}

/// The list shows every row, in the order of the rows.
pub proof fn law_list_shows_every_row(rows: Seq<Seq<(Seq<char>, Datum)>>)
    ensures
        device_list(rows) matches Document::Object(members) && members[0].0 == "data"@ && (
        members[0].1 matches Document::Array(items) && items.len() == rows.len() && forall|i: int|
            0 <= i < rows.len() ==> #[trigger] items[i] == row_document(rows[i])),
{
}

/// An address that no account has is answered as a device that is not known.
pub proof fn law_unknown_address_is_unknown_device(
    headers: Map<Seq<char>, Seq<Seq<u8>>>,
    device_identifier: Seq<char>,
)
    ensures
        knowndevice_move(
            headers,
            KnownDeviceStage::FindingUser { device_identifier },
            Event::Id(None),
        ) == knowndevice_move(headers, KnownDeviceStage::FindingDevice, Event::Present(None)),
{
}

/// How much the question whether a device is known still asks for at most.
pub open spec fn known_device_rank(stage: KnownDeviceStage) -> nat {
    match stage {
        KnownDeviceStage::Start => 4,
        KnownDeviceStage::Preparing(table) => 2 + table_rank(table),
        KnownDeviceStage::FindingUser { .. } => 1,
        KnownDeviceStage::FindingDevice => 0,
    }
}

/// How much the registering of a push token still asks for at most.
pub open spec fn device_token_rank(state: DeviceTokenState) -> nat {
    match state {
        DeviceTokenState::Start => 3,
        DeviceTokenState::Preparing(table) => 1 + table_rank(table),
        DeviceTokenState::Noting => 0,
    }
}

/// How much the listing still asks for at most.
pub open spec fn get_devices_rank(state: GetDevicesState) -> nat {
    match state {
        GetDevicesState::Start => 3,
        GetDevicesState::Preparing(table) => 1 + table_rank(table),
        GetDevicesState::Listing => 0,
    }
}

/// How much the showing of one device still asks for at most.
pub open spec fn get_device_rank(stage: GetDeviceStage) -> nat {
    match stage {
        GetDeviceStage::Start => 6,
        GetDeviceStage::Preparing(table) => 4 + table_rank(table),
        GetDeviceStage::Finding => 3,
        GetDeviceStage::Inserting { .. } => 2,
        GetDeviceStage::Rereading { .. } => 1,
        GetDeviceStage::Updating { .. } => 0,
    }
}

/// Every question whether a device is known is answered: each step leaves less to ask for.
pub proof fn law_knowndevice_ends(
    headers: Map<Seq<char>, Seq<Seq<u8>>>,
    stage: KnownDeviceStage,
    event: Event,
)
    ensures
        knowndevice_move(headers, stage, event) matches Move::Perform(_, next)
            ==> known_device_rank(next) < known_device_rank(stage),
{
}

/// Every registering of a push token is answered: each step leaves less to ask for.
pub proof fn law_device_token_ends(
    user_id: Seq<char>,
    headers: Map<Seq<char>, Seq<Seq<u8>>>,
    device_identifier: Seq<char>,
    state: DeviceTokenState,
    event: Event,
    id: Seq<char>,
    now: Timestamp,
)
    ensures
        device_token_move(user_id, headers, device_identifier, state, event, id, now) matches
            Move::Perform(_, next) ==> device_token_rank(next) < device_token_rank(state),
{
}

/// Every listing is answered: each step leaves less to ask for.
pub proof fn law_get_devices_ends(user_id: Seq<char>, state: GetDevicesState, event: Event)
    ensures
        get_devices_move(user_id, state, event) matches Move::Perform(_, next)
            ==> get_devices_rank(next) < get_devices_rank(state),
{
}

/// Every showing of one device is answered: each step leaves less to ask for.
pub proof fn law_get_device_ends(
    user_id: Seq<char>,
    headers: Map<Seq<char>, Seq<Seq<u8>>>,
    device_identifier: Seq<char>,
    stage: GetDeviceStage,
    event: Event,
    id: Seq<char>,
    now: Timestamp,
)
    ensures
        get_device_move(user_id, headers, device_identifier, stage, event, id, now) matches
            Move::Perform(_, next) ==> get_device_rank(next) < get_device_rank(stage),
{
}

} // verus!
