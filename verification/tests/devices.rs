use axum::http::{HeaderMap, HeaderValue};
use serde_json::Value;
use vault_identity::clock::Timestamp;
use vault_identity::devices::{
    device_list_json, device_token, device_token_with, get_device_by_identifier,
    get_device_by_identifier_with, get_devices, infer_device_name, infer_device_type, knowndevice,
    row_json, DeviceTokenState, GetDeviceState, GetDevicesState, KnownDeviceState,
    DEVICES_OF_USER, DEVICE_BY_ID, DEVICE_BY_IDENTIFIER, DEVICE_IS_KNOWN, INSERT_DEVICE,
    NOTE_DEVICE, UPDATE_DEVICE, USER_ID_BY_EMAIL,
};
use vault_identity::error::AppError;
use vault_identity::flow::{Action, DbFailure, Outcome, Reply, Step, TableStage};
use vault_identity::json::Json;
use vault_identity::sql::{Cell, Fetch, Row, SqlValue, Statement, ALTER_DEVICES, CREATE_DEVICES};

fn value(json: &Json) -> Value {
    match json {
        Json::Null => Value::Null,
        Json::Bool(b) => Value::from(*b),
        Json::Integer(n) => Value::from(*n),
        Json::Text(s) => Value::from(s.as_str()),
        Json::Array(items) => Value::Array(items.iter().map(value).collect()),
        Json::Object(members) => {
            Value::Object(members.iter().map(|(k, v)| (k.clone(), value(v))).collect())
        },
    }
}

fn parsed(text: &str) -> Value {
    serde_json::from_str(text).unwrap()
}

fn headers(fields: &[(&'static str, &'static str)]) -> HeaderMap {
    let mut map = HeaderMap::new();
    for (name, v) in fields {
        map.append(*name, HeaderValue::from_static(v));
    }
    map
}

fn params(s: &Statement) -> Vec<String> {
    s.params
        .iter()
        .map(|p| match p {
            SqlValue::Null => "null".to_string(),
            SqlValue::Integer(n) => format!("#{}", n),
            SqlValue::Text(t) => format!("'{}'", t),
        })
        .collect()
}

fn asks<S>(step: Step<S>) -> (Statement, S) {
    match step {
        Step::Perform(Action::Query(s), state) => (s, state),
        Step::Perform(other, _) => panic!("{:?}", other),
        Step::Answer(Err(e)) => panic!("{:?}", e),
        Step::Answer(Ok(r)) => panic!("{:?}", r.body),
    }
}

fn answered<S>(step: Step<S>) -> Reply {
    match step {
        Step::Answer(Ok(r)) => r,
        Step::Answer(Err(e)) => panic!("{:?}", e),
        Step::Perform(a, _) => panic!("{:?}", a),
    }
}

fn refused<S>(step: Step<S>) -> AppError {
    match step {
        Step::Answer(Err(e)) => e,
        Step::Answer(Ok(r)) => panic!("{:?}", r.body),
        Step::Perform(a, _) => panic!("{:?}", a),
    }
}

fn row(columns: &[(&str, Option<&str>)], device_type: Option<i64>) -> Row {
    let mut all: Vec<(String, Cell)> = columns
        .iter()
        .map(|(k, v)| {
            let cell = match v {
                Some(s) => Cell::Text(s.to_string()),
                None => Cell::Null,
            };
            (k.to_string(), cell)
        })
        .collect();
    let cell = match device_type {
        Some(n) => Cell::Integer(n),
        None => Cell::Null,
    };
    all.push(("device_type".to_string(), cell));
    Row { columns: all }
}

fn stored(name: Option<&str>, device_type: Option<i64>, hash: Option<&str>) -> Row {
    row(
        &[
            ("id", Some("row-1")),
            ("device_identifier", Some("dev-1")),
            ("device_name", name),
            ("remember_token_hash", hash),
            ("created_at", Some("then")),
            ("updated_at", Some("lately")),
        ],
        device_type,
    )
}

const NOW: Timestamp = Timestamp { secs: 1700000000, nanos: 0 };
const NOW_TEXT: &str = "2023-11-14T22:13:20+00:00";

// ---- what the client says of itself ----

#[test]
fn a_client_is_named_by_name_and_version() {
    let name = |fields: &[(&'static str, &'static str)]| infer_device_name(&headers(fields));
    assert_eq!(
        name(&[("bitwarden-client-name", " web "), ("bitwarden-client-version", "2024.1 ")]),
        Some("web 2024.1".to_string())
    );
    assert_eq!(name(&[("Bitwarden-Client-Name", "cli")]), Some("cli".to_string()));
    assert_eq!(
        name(&[("bitwarden-client-name", "cli"), ("bitwarden-client-version", "  ")]),
        Some("cli".to_string())
    );
    assert_eq!(name(&[("bitwarden-client-version", "1")]), None);
    assert_eq!(name(&[("bitwarden-client-name", "  "), ("bitwarden-client-version", "1")]), None);
    assert_eq!(name(&[]), None);
}

#[test]
fn a_client_says_of_which_type_it_is() {
    assert_eq!(infer_device_type(&headers(&[("device-type", " 9 ")])), Some(9));
    assert_eq!(infer_device_type(&headers(&[("Device-Type", "-1")])), Some(-1));
    assert_eq!(infer_device_type(&headers(&[("device-type", "web")])), None);
    assert_eq!(infer_device_type(&headers(&[])), None);
}

// ---- is the device known? ----

const ASKING: [(&str, &str); 2] =
    [("x-request-email", "QWxpY2VARXhhbXBsZS5jb20"), ("x-device-identifier", "dev-1")];

fn known(h: &HeaderMap, state: KnownDeviceState, outcome: Outcome) -> Step<KnownDeviceState> {
    knowndevice(h, state, outcome)
}

#[test]
fn the_table_is_made_first() {
    let h = headers(&[]);
    let (s, state) = asks(known(&h, KnownDeviceState::Start, Outcome::Done));
    assert_eq!(s.sql, CREATE_DEVICES);
    assert!(s.params.is_empty());
    assert_eq!(s.fetch, Fetch::Nothing);
    assert!(CREATE_DEVICES.starts_with("CREATE TABLE IF NOT EXISTS devices ("));
    assert!(CREATE_DEVICES.contains("UNIQUE(user_id, device_identifier)"));
    let failed = Outcome::Failed(DbFailure::Run);
    assert!(matches!(
        refused(known(&h, KnownDeviceState::Preparing(TableStage::Create), failed)),
        AppError::Database
    ));
    let (s, state) = asks(known(&h, state, Outcome::Done));
    assert_eq!(s.sql, ALTER_DEVICES);
    assert!(matches!(state, KnownDeviceState::Preparing(TableStage::Alter)));
}

#[test]
fn a_column_that_is_there_already_is_no_failure() {
    let h = headers(&ASKING);
    for outcome in [Outcome::Done, Outcome::Failed(DbFailure::Run)] {
        let state = KnownDeviceState::Preparing(TableStage::Alter);
        let (s, _) = asks(known(&h, state, outcome));
        assert_eq!(s.sql, USER_ID_BY_EMAIL);
        assert_eq!(params(&s), vec!["'alice@example.com'"]);
        assert_eq!(s.fetch, Fetch::FirstId);
    }
}

#[test]
fn a_known_device_is_found() {
    let h = headers(&ASKING);
    let state = KnownDeviceState::Preparing(TableStage::Alter);
    let (_, state) = asks(known(&h, state, Outcome::Done));
    let (s, state) = asks(known(&h, state, Outcome::Id(Some("user-1".to_string()))));
    assert_eq!(s.sql, DEVICE_IS_KNOWN);
    assert_eq!(params(&s), vec!["'user-1'", "'dev-1'"]);
    assert_eq!(s.fetch, Fetch::FirstOk);
    let reply = answered(known(&h, state, Outcome::Present(Some(1))));
    assert_eq!(reply.status, 200);
    assert!(reply.headers.is_empty());
    assert_eq!(value(&reply.body), Value::from(true));
    let reply = answered(known(&h, KnownDeviceState::FindingDevice, Outcome::Present(None)));
    assert_eq!(value(&reply.body), Value::from(false));
}

#[test]
fn an_unknown_address_is_answered_as_an_unknown_device() {
    let h = headers(&ASKING);
    let state = KnownDeviceState::FindingUser { device_identifier: "dev-1".to_string() };
    let reply = answered(known(&h, state, Outcome::Id(None)));
    assert_eq!(reply.status, 200);
    assert_eq!(value(&reply.body), Value::from(false));
}

#[test]
fn a_question_that_lacks_something_is_refused() {
    let ask = |fields: &[(&'static str, &'static str)]| {
        let state = KnownDeviceState::Preparing(TableStage::Alter);
        match refused(known(&headers(fields), state, Outcome::Done)) {
            AppError::BadRequest(m) => m,
            e => panic!("{:?}", e),
        }
    };
    assert_eq!(ask(&[]), "X-Request-Email value is required");
    assert_eq!(ask(&[("x-device-identifier", "d")]), "X-Request-Email value is required");
    assert_eq!(ask(&[("x-request-email", "!")]), "X-Device-Identifier value is required");
    assert_eq!(
        ask(&[("x-request-email", "!"), ("x-device-identifier", "d")]),
        "X-Request-Email value failed to decode as base64url"
    );
    assert_eq!(
        ask(&[("x-request-email", "YQ=="), ("x-device-identifier", "d")]),
        "X-Request-Email value failed to decode as base64url"
    );
    assert_eq!(
        ask(&[("x-request-email", "_w"), ("x-device-identifier", "d")]),
        "X-Request-Email value failed to decode as UTF-8"
    );
}

#[test]
fn an_address_is_asked_for_in_lower_case() {
    // "ÄRGER@X"
    let h = headers(&[("x-request-email", "w4RSR0VSQFg"), ("x-device-identifier", "d")]);
    let state = KnownDeviceState::Preparing(TableStage::Alter);
    let (s, _) = asks(known(&h, state, Outcome::Done));
    assert_eq!(params(&s), vec!["'ärger@x'"]);
}

#[test]
fn a_question_fails_with_the_database() {
    let h = headers(&ASKING);
    let finding = || KnownDeviceState::FindingUser { device_identifier: "d".to_string() };
    let e = refused(known(&h, finding(), Outcome::Failed(DbFailure::Run)));
    assert!(matches!(e, AppError::Database));
    let e = refused(known(&h, finding(), Outcome::Failed(DbFailure::Bind("no".to_string()))));
    assert!(matches!(e, AppError::Worker(m) if m == "no"));
    let e = refused(known(&h, KnownDeviceState::FindingDevice, Outcome::Failed(DbFailure::Run)));
    assert!(matches!(e, AppError::Database));
    let e = refused(known(&h, KnownDeviceState::FindingDevice, Outcome::Done));
    assert!(matches!(e, AppError::Internal));
}

// ---- registering a push token ----

#[test]
fn a_push_token_notes_the_device() {
    let h = headers(&[("bitwarden-client-name", "web"), ("device-type", "9")]);
    let step = device_token_with(
        "user-1",
        &h,
        "dev-1",
        DeviceTokenState::Preparing(TableStage::Alter),
        Outcome::Done,
        "row-1",
        &NOW,
    );
    let (s, state) = asks(step);
    assert_eq!(s.sql, NOTE_DEVICE);
    assert_eq!(
        params(&s),
        vec![
            "'row-1'".to_string(),
            "'user-1'".to_string(),
            "'dev-1'".to_string(),
            "'web'".to_string(),
            "#9".to_string(),
            format!("'{}'", NOW_TEXT),
            format!("'{}'", NOW_TEXT),
        ]
    );
    assert!(matches!(state, DeviceTokenState::Noting));
    let reply = answered(device_token("user-1", &h, "dev-1", state, Outcome::Done));
    assert_eq!(reply.status, 200);
    assert_eq!(value(&reply.body), Value::Null);
}

#[test]
fn a_silent_device_is_noted_without_name_and_type() {
    let h = headers(&[]);
    let state = DeviceTokenState::Preparing(TableStage::Alter);
    let (s, _) = asks(device_token("user-1", &h, "dev-1", state, Outcome::Done));
    let p = params(&s);
    assert_eq!(p.len(), 7);
    assert_eq!(p[0].len(), 38);
    assert_eq!(&p[1..5], &["'user-1'", "'dev-1'", "null", "null"]);
    assert_eq!(p[5], p[6]);
    assert!(chrono::DateTime::parse_from_rfc3339(p[5].trim_matches('\'')).is_ok());
}

#[test]
fn registering_fails_with_the_database() {
    let h = headers(&[]);
    let run = |state, outcome| refused(device_token("u", &h, "d", state, outcome));
    let create = DeviceTokenState::Preparing(TableStage::Create);
    assert!(matches!(run(create, Outcome::Failed(DbFailure::Run)), AppError::Database));
    let noting = DeviceTokenState::Noting;
    assert!(matches!(run(noting, Outcome::Failed(DbFailure::Run)), AppError::Database));
    let bind = Outcome::Failed(DbFailure::Bind("no".to_string()));
    assert!(matches!(run(noting, bind), AppError::Worker(m) if m == "no"));
    assert!(matches!(run(noting, Outcome::Row(None)), AppError::Internal));
}

// ---- listing ----

const SHOWN: &str = "{\"id\":\"row-1\",\"name\":\"web\",\"identifier\":\"dev-1\",\"type\":9,\
    \"creationDate\":\"then\",\"revisionDate\":\"lately\",\"lastSeenDate\":\"lately\",\
    \"isTrusted\":true,\"object\":\"device\"}";

#[test]
fn a_row_is_shown() {
    assert_eq!(value(&row_json(&stored(Some("web"), Some(9), Some("hash")))), parsed(SHOWN));
}

#[test]
fn a_row_without_anything_is_shown_empty() {
    let empty = "{\"id\":\"\",\"name\":\"\",\"identifier\":\"\",\"type\":0,\
        \"creationDate\":\"\",\"revisionDate\":\"\",\"lastSeenDate\":\"\",\
        \"isTrusted\":false,\"object\":\"device\"}";
    assert_eq!(value(&row_json(&Row { columns: Vec::new() })), parsed(empty));
    let odd = Row {
        columns: vec![
            ("id".to_string(), Cell::Integer(3)),
            ("device_type".to_string(), Cell::Text("9".to_string())),
            ("device_name".to_string(), Cell::Other),
        ],
    };
    assert_eq!(value(&row_json(&odd)), parsed(empty));
}

#[test]
fn devices_are_listed() {
    let state = GetDevicesState::Preparing(TableStage::Alter);
    let (s, state) = asks(get_devices("user-1", state, Outcome::Done));
    assert_eq!(s.sql, DEVICES_OF_USER);
    assert!(s.sql.ends_with("ORDER BY updated_at DESC"));
    assert_eq!(params(&s), vec!["'user-1'"]);
    assert_eq!(s.fetch, Fetch::AllRows);
    let rows = vec![stored(Some("web"), Some(9), Some("hash")), stored(None, None, None)];
    let reply = answered(get_devices("user-1", state, Outcome::Rows(rows)));
    assert_eq!(reply.status, 200);
    let list = value(&reply.body);
    assert_eq!(list.get("object"), Some(&Value::from("list")));
    assert_eq!(list.get("continuationToken"), Some(&Value::Null));
    let data = list.get("data").unwrap().as_array().unwrap();
    assert_eq!(data.len(), 2);
    assert_eq!(data[0], parsed(SHOWN));
    assert_eq!(data[1].get("isTrusted"), Some(&Value::from(false)));
}

#[test]
fn no_devices_are_an_empty_list() {
    let list = value(&device_list_json(&Vec::new()));
    assert_eq!(list, parsed("{\"data\":[],\"object\":\"list\",\"continuationToken\":null}"));
}

#[test]
fn listing_fails_with_the_database() {
    let listing = GetDevicesState::Listing;
    let run = |outcome| refused(get_devices("u", listing, outcome));
    assert!(matches!(run(Outcome::Failed(DbFailure::Run)), AppError::Database));
    let results = Outcome::Failed(DbFailure::Results("odd".to_string()));
    assert!(matches!(run(results), AppError::Worker(m) if m == "odd"));
    assert!(matches!(run(Outcome::Done), AppError::Internal));
    let (s, _) = asks(get_devices("u", GetDevicesState::Start, Outcome::Done));
    assert_eq!(s.sql, CREATE_DEVICES);
}

// ---- one device ----

fn show(h: &HeaderMap, state: GetDeviceState, outcome: Outcome) -> Step<GetDeviceState> {
    get_device_by_identifier_with("user-1", h, "dev-1", state, outcome, "row-9", &NOW)
}

#[test]
fn a_device_is_looked_up_by_account_and_identifier() {
    let state = GetDeviceState::Preparing(TableStage::Alter);
    let (s, state) = asks(show(&headers(&[]), state, Outcome::Failed(DbFailure::Run)));
    assert_eq!(s.sql, DEVICE_BY_IDENTIFIER);
    assert_eq!(params(&s), vec!["'user-1'", "'dev-1'"]);
    assert!(matches!(state, GetDeviceState::Finding));
}

#[test]
fn a_silent_client_is_shown_the_row() {
    let found = Outcome::Row(Some(stored(Some("web"), Some(9), Some("hash"))));
    let reply = answered(show(&headers(&[]), GetDeviceState::Finding, found));
    assert_eq!(reply.status, 200);
    assert_eq!(value(&reply.body), parsed(SHOWN));
}

#[test]
fn a_row_that_is_behind_is_written_anew() {
    let h = headers(&[
        ("bitwarden-client-name", "web"),
        ("bitwarden-client-version", "2"),
        ("device-type", "9"),
    ]);
    for behind in [stored(Some("  "), Some(3), None), stored(Some("old"), None, None)] {
        let (s, state) = asks(show(&h, GetDeviceState::Finding, Outcome::Row(Some(behind))));
        assert_eq!(s.sql, UPDATE_DEVICE);
        assert_eq!(
            params(&s),
            vec![
                "'web 2'".to_string(),
                "#9".to_string(),
                format!("'{}'", NOW_TEXT),
                "'row-1'".to_string()
            ]
        );
        let reply = answered(show(&h, state, Outcome::Failed(DbFailure::Run)));
        let shown = value(&reply.body);
        assert_eq!(shown.get("name"), Some(&Value::from("web 2")));
        assert_eq!(shown.get("type"), Some(&Value::from(9)));
        assert_eq!(shown.get("revisionDate"), Some(&Value::from(NOW_TEXT)));
        assert_eq!(shown.get("lastSeenDate"), Some(&Value::from(NOW_TEXT)));
        assert_eq!(shown.get("creationDate"), Some(&Value::from("then")));
    }
}

#[test]
fn a_row_written_anew_is_no_longer_behind() {
    let h = headers(&[("bitwarden-client-name", "web"), ("device-type", "9")]);
    let behind = Outcome::Row(Some(stored(None, None, Some("hash"))));
    let (_, state) = asks(show(&h, GetDeviceState::Finding, behind));
    let first = value(&answered(show(&h, state, Outcome::Done)).body);
    let mut anew = stored(Some("web"), Some(9), Some("hash"));
    anew.columns[5].1 = Cell::Text(NOW_TEXT.to_string());
    let reply = answered(show(&h, GetDeviceState::Finding, Outcome::Row(Some(anew))));
    assert_eq!(value(&reply.body), first);
}

#[test]
fn a_row_with_name_and_type_is_left_alone() {
    let h = headers(&[("bitwarden-client-name", "new"), ("device-type", "14")]);
    let found = Outcome::Row(Some(stored(Some("web"), Some(9), Some("hash"))));
    let shown = value(&answered(show(&h, GetDeviceState::Finding, found)).body);
    assert_eq!(shown.get("name"), Some(&Value::from("new")));
    assert_eq!(shown.get("type"), Some(&Value::from(14)));
    assert_eq!(shown.get("revisionDate"), Some(&Value::from("lately")));
}

#[test]
fn what_a_client_does_not_say_is_kept() {
    let h = headers(&[("device-type", "9")]);
    let behind = Outcome::Row(Some(stored(Some("old"), None, None)));
    let (s, _) = asks(show(&h, GetDeviceState::Finding, behind));
    assert_eq!(params(&s)[0], "'old'");
    let blank = Outcome::Row(Some(stored(None, None, None)));
    let (s, state) = asks(show(&h, GetDeviceState::Finding, blank));
    assert_eq!(params(&s)[0], "null");
    let shown = value(&answered(show(&h, state, Outcome::Done)).body);
    assert_eq!(shown.get("name"), Some(&Value::from("")));
}

#[test]
fn an_update_that_does_not_bind_fails() {
    let shown = || GetDeviceState::Updating { shown: Json::Null };
    let bind = Outcome::Failed(DbFailure::Bind("no".to_string()));
    assert!(matches!(refused(show(&headers(&[]), shown(), bind)), AppError::Database));
    assert_eq!(answered(show(&headers(&[]), shown(), Outcome::Done)).status, 200);
}

#[test]
fn a_device_that_is_not_there_is_added() {
    let h = headers(&[("bitwarden-client-name", "web")]);
    let (s, state) = asks(show(&h, GetDeviceState::Finding, Outcome::Row(None)));
    assert_eq!(s.sql, INSERT_DEVICE);
    assert_eq!(
        params(&s),
        vec![
            "'row-9'".to_string(),
            "'user-1'".to_string(),
            "'dev-1'".to_string(),
            "'web'".to_string(),
            "null".to_string(),
            format!("'{}'", NOW_TEXT),
            format!("'{}'", NOW_TEXT),
        ]
    );
    let later = Timestamp { secs: 1800000000, nanos: 0 };
    let step =
        get_device_by_identifier_with("user-1", &h, "dev-1", state, Outcome::Done, "x", &later);
    let (s, state) = asks(step);
    assert_eq!(s.sql, DEVICE_BY_ID);
    assert_eq!(params(&s), vec!["'row-9'"]);
    let added = stored(Some("web"), None, None);
    let reply = answered(show(&h, state, Outcome::Row(Some(added))));
    assert_eq!(value(&reply.body).get("revisionDate"), Some(&Value::from("lately")));
}

#[test]
fn the_time_of_a_request_is_taken_once() {
    let h = headers(&[("device-type", "9")]);
    let (_, state) = asks(show(&h, GetDeviceState::Finding, Outcome::Row(None)));
    let (_, state) = asks(show(&h, state, Outcome::Done));
    let later = Timestamp { secs: 1800000000, nanos: 0 };
    let found = Outcome::Row(Some(stored(None, None, None)));
    let step = get_device_by_identifier_with("user-1", &h, "dev-1", state, found, "x", &later);
    assert_eq!(params(&asks(step).0)[2], format!("'{}'", NOW_TEXT));
}

#[test]
fn a_device_that_cannot_be_added_fails() {
    let h = headers(&[]);
    let inserting = || GetDeviceState::Inserting { id: "row-9".to_string(), now: NOW };
    let run = Outcome::Failed(DbFailure::Run);
    assert!(matches!(refused(show(&h, inserting(), run)), AppError::Database));
    let rereading = || GetDeviceState::Rereading { now: NOW };
    assert!(matches!(refused(show(&h, rereading(), Outcome::Row(None))), AppError::Internal));
    let bind = Outcome::Failed(DbFailure::Bind("no".to_string()));
    assert!(matches!(refused(show(&h, rereading(), bind)), AppError::Worker(m) if m == "no"));
    let run = Outcome::Failed(DbFailure::Run);
    assert!(matches!(refused(show(&h, GetDeviceState::Finding, run)), AppError::Database));
}

#[test]
fn a_whole_showing_ends() {
    let h = headers(&[("device-type", "9")]);
    let go = |state, outcome| get_device_by_identifier("user-1", &h, "dev-1", state, outcome);
    let (_, state) = asks(go(GetDeviceState::Start, Outcome::Done));
    let (_, state) = asks(go(state, Outcome::Done));
    let (_, state) = asks(go(state, Outcome::Done));
    let (insert, state) = asks(go(state, Outcome::Row(None)));
    let (_, state) = asks(go(state, Outcome::Done));
    let (update, state) = asks(go(state, Outcome::Row(Some(stored(None, None, None)))));
    assert_eq!(params(&insert)[5], params(&update)[2]);
    let reply = answered(go(state, Outcome::Done));
    assert_eq!(value(&reply.body).get("type"), Some(&Value::from(9)));
}

// ---- from one request to the next ----

#[test]
fn a_noted_device_is_the_one_that_is_looked_for() {
    let h = headers(&ASKING);
    let state = KnownDeviceState::FindingUser { device_identifier: "dev-1".to_string() };
    let (lookup, _) = asks(known(&h, state, Outcome::Id(Some("user-1".to_string()))));
    let looked_for = params(&lookup);
    let state = DeviceTokenState::Preparing(TableStage::Alter);
    let (note, _) = asks(device_token("user-1", &h, "dev-1", state, Outcome::Done));
    assert_eq!(&params(&note)[1..3], &looked_for[..]);
    let (insert, _) = asks(show(&h, GetDeviceState::Finding, Outcome::Row(None)));
    assert_eq!(&params(&insert)[1..3], &looked_for[..]);
}

#[test]
fn noting_twice_binds_the_same_but_for_row_and_time() {
    let h = headers(&[("bitwarden-client-name", "web"), ("device-type", "9")]);
    let note = |id: &str, now: &Timestamp| {
        let state = DeviceTokenState::Preparing(TableStage::Alter);
        let step = device_token_with("user-1", &h, "dev-1", state, Outcome::Done, id, now);
        asks(step).0
    };
    let first = note("row-1", &NOW);
    let again = note("row-2", &Timestamp { secs: 1700000060, nanos: 0 });
    assert_eq!(first.sql, again.sql);
    assert_eq!(&params(&first)[1..5], &params(&again)[1..5]);
    assert_eq!(params(&again)[6], "'2023-11-14T22:14:20+00:00'");
    assert!(first.sql.contains("updated_at = excluded.updated_at"));
    assert!(!first.sql.contains("created_at = "));
    assert!(!first.sql.contains("remember_token_hash = "));
}
