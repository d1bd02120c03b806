//! The table of devices, and what the statements of the handlers do to it.
use vstd::prelude::*;
use crate::clock::Timestamp;
use crate::codec::{
    base64url_text, law_encoded_text_reads_back, lowercase, random_uuid, sha256_hex_of,
};
use crate::devices::{
    device_token_move, first_of, get_device_move, inferred_name, inferred_type, knowndevice_move,
    new_device, rewritten, update_device, DeviceTokenState, GetDeviceStage, KnownDeviceStage,
    DEVICES_OF_USER, DEVICE_BY_ID, DEVICE_BY_IDENTIFIER, DEVICE_IS_KNOWN, INSERT_DEVICE, NOTE_DEVICE,
    UPDATE_DEVICE, USER_ID_BY_EMAIL,
};
use crate::flow::{document_response, Event, Move, Response, TableStage, Work};
use crate::headers::header_text;
use crate::identity::{
    save_device, TokenStage, REMEMBERED_HASH, SAVE_DEVICE, USER_BY_EMAIL, USER_BY_ID,
};
use crate::json::Document;
use crate::request::TokenForm;
use crate::runs::{
    device_noted, is_run, law_tokens_are_earned, sent_to_who_signed_in, signed_in, Exchange,
};
use crate::sql::{
    column, integer_in, law_safe_integer_is_exact, nearest_double, query, safe_integer, text_in, Bound,
    Datum, Fetch, Query, ALTER_DEVICES, CREATE_DEVICES,
};
use crate::tokens::{Account, Issue, Keys};

verus! {

broadcast use vstd::string::group_string_axioms;

/// A row of the table, but for the account and the identifier by which it is found.
#[verifier::ext_equal]
pub struct DeviceRow {
    pub id: Seq<char>,
    pub device_name: Option<Seq<char>>,
    pub device_type: Option<int>,
    pub remember_token_hash: Option<Seq<char>>,
    pub created_at: Seq<char>,
    pub updated_at: Seq<char>,
}

/// What the statements read and write: which accounts there are, and the table of devices, by the
/// account and the identifier of each.
#[verifier::ext_equal]
pub struct Store {
    pub accounts: Set<Seq<char>>,
    pub devices: Map<(Seq<char>, Seq<char>), DeviceRow>,
}

impl Store {
    /// What the table's own constraints keep up: no two rows have the same identifier, and every
    /// device is of an account that there is. That an account has a device once is in the map.
    pub open spec fn well_formed(self) -> bool {
        &&& forall|k: (Seq<char>, Seq<char>), l: (Seq<char>, Seq<char>)|
            #![trigger self.devices[k], self.devices[l]]
            self.devices.dom().contains(k) && self.devices.dom().contains(l) && self.devices[k].id
                == self.devices[l].id ==> k == l
        &&& forall|k: (Seq<char>, Seq<char>)| #[trigger]
            self.devices.dom().contains(k) ==> self.accounts.contains(k.0)
    }

    /// Whether no other row than the one of `key` has this identifier.
    pub open spec fn has_free(self, key: (Seq<char>, Seq<char>), id: Seq<char>) -> bool {
        forall|k: (Seq<char>, Seq<char>)|
            self.devices.dom().contains(k) && k != key ==> (#[trigger] self.devices[k]).id != id
    }

    /// Whether the table holds the device, which is what `DEVICE_IS_KNOWN` looks for.
    pub open spec fn holds(self, user_id: Seq<char>, device_identifier: Seq<char>) -> bool {
        self.devices.dom().contains((user_id, device_identifier))
    }

    /// With one row written.
    pub open spec fn with_row(self, key: (Seq<char>, Seq<char>), row: DeviceRow) -> Store {
        Store { accounts: self.accounts, devices: self.devices.insert(key, row) }
    }
}

/// A text that is bound; empty where none is.
pub open spec fn bound_text(b: Bound) -> Seq<char> {
    match b {
        Bound::Text(s) => s,
        _ => Seq::empty(),
    }
}

/// A text that is bound, nothing where null is.
pub open spec fn bound_optional_text(b: Bound) -> Option<Seq<char>> {
    match b {
        Bound::Text(s) => Some(s),
        _ => None,
    }
}

/// The number that is stored of an integer that is bound, nothing where null is: the nearest double.
pub open spec fn bound_optional_integer(b: Bound) -> Option<int> {
    match b {
        Bound::Integer(n) => Some(nearest_double(n)),
        _ => None,
    }
}

/// The account and the identifier that a statement binds, from its parameter `i` on.
pub open spec fn device_key(q: Query, i: int) -> (Seq<char>, Seq<char>) {
    (bound_text(q.params[i]), bound_text(q.params[i + 1]))
}

/// A row that is written over one that is there: with the new time and with what is new of name,
/// type and digest. The row keeps its identifier and the time when it was made.
pub open spec fn merged(old_row: DeviceRow, row: DeviceRow) -> DeviceRow {
    DeviceRow {
        id: old_row.id,
        device_name: first_of(row.device_name, old_row.device_name),
        device_type: first_of(row.device_type, old_row.device_type),
        remember_token_hash: first_of(row.remember_token_hash, old_row.remember_token_hash),
        created_at: old_row.created_at,
        updated_at: row.updated_at,
    }
}

/// What an insert does, nothing where it fails: where the account has the device already, where a
/// row has the identifier already, and where there is no such account. The table then stays as it
/// was.
pub open spec fn inserted(
    store: Store,
    key: (Seq<char>, Seq<char>),
    row: DeviceRow,
) -> Option<Store> {
    if store.devices.dom().contains(key) || !store.has_free(key, row.id)
        || !store.accounts.contains(key.0) {
        None
    } else {
        Some(store.with_row(key, row))
    }
}

/// What an insert does that writes over the row where the account has the device already. It fails
/// where a plain insert does for another reason than that. Where the row is there and another one
/// has the new identifier, it is left open what it does: the result is then nothing as well.
pub open spec fn upserted(
    store: Store,
    key: (Seq<char>, Seq<char>),
    row: DeviceRow,
) -> Option<Store> {
    if !store.devices.dom().contains(key) {
        inserted(store, key, row)
    } else if store.has_free(key, row.id) {
        Some(store.with_row(key, merged(store.devices[key], row)))
    } else {
        None
    }
}

/// The row that `NOTE_DEVICE` and `INSERT_DEVICE` bind. They bind no digest.
pub open spec fn bound_row(q: Query) -> DeviceRow {
    DeviceRow {
        id: bound_text(q.params[0]),
        device_name: bound_optional_text(q.params[3]),
        device_type: bound_optional_integer(q.params[4]),
        remember_token_hash: None,
        created_at: bound_text(q.params[5]),
        updated_at: bound_text(q.params[6]),
    }
}

/// The row that `SAVE_DEVICE` binds.
pub open spec fn bound_saved_row(q: Query) -> DeviceRow {
    DeviceRow {
        id: bound_text(q.params[0]),
        device_name: bound_optional_text(q.params[3]),
        device_type: bound_optional_integer(q.params[4]),
        remember_token_hash: bound_optional_text(q.params[5]),
        created_at: bound_text(q.params[6]),
        updated_at: bound_text(q.params[7]),
    }
}

/// What `NOTE_DEVICE` does, with the parameters that `q` binds; nothing where it fails or that is
/// left open.
pub open spec fn after_note(store: Store, q: Query) -> Option<Store> {
    upserted(store, device_key(q, 1), bound_row(q))
}

/// What `SAVE_DEVICE` does, with the parameters that `q` binds; nothing where it fails or that is
/// left open.
pub open spec fn after_save(store: Store, q: Query) -> Option<Store> {
    upserted(store, device_key(q, 1), bound_saved_row(q))
}

/// What `INSERT_DEVICE` does, with the parameters that `q` binds; nothing where it fails.
pub open spec fn after_insert(store: Store, q: Query) -> Option<Store> {
    inserted(store, device_key(q, 1), bound_row(q))
}

/// A row with the name, the type and the time that `UPDATE_DEVICE` binds.
pub open spec fn with_update(row: DeviceRow, q: Query) -> DeviceRow {
    DeviceRow {
        id: row.id,
        device_name: bound_optional_text(q.params[0]),
        device_type: bound_optional_integer(q.params[1]),
        remember_token_hash: row.remember_token_hash,
        created_at: row.created_at,
        updated_at: bound_text(q.params[2]),
    }
}

/// What `UPDATE_DEVICE` does, with the parameters that `q` binds: every row with the identifier is
/// written anew, and there may be none.
pub open spec fn after_update(store: Store, q: Query) -> Store {
    Store {
        accounts: store.accounts,
        devices: Map::new(
            |k: (Seq<char>, Seq<char>)| store.devices.dom().contains(k),
            |k: (Seq<char>, Seq<char>)|
                if store.devices[k].id == bound_text(q.params[3]) {
                    with_update(store.devices[k], q)
                } else {
                    store.devices[k]
                },
        ),
    }
}

/// What `DEVICE_IS_KNOWN` finds, with the parameters that `q` binds.
pub open spec fn looked_for(store: Store, q: Query) -> Event {
    Event::Present(
        if store.devices.dom().contains(device_key(q, 0)) {
            Some(1int)
        } else {
            None
        },
    )
}

/// A number that is stored, as it comes back: as an integer where it is a safe one.
pub open spec fn read_integer(n: Option<int>) -> Datum {
    match n {
        Some(n) => if safe_integer(n) {
            Datum::Integer(n)
        } else {
            Datum::Other
        },
        None => Datum::Null,
    }
}

/// A text that is stored, as it comes back.
pub open spec fn read_text(text: Option<Seq<char>>) -> Datum {
    match text {
        Some(s) => Datum::Text(s),
        None => Datum::Null,
    }
}

/// A row as the handlers select it.
pub open spec fn selected(key: (Seq<char>, Seq<char>), row: DeviceRow) -> Seq<(Seq<char>, Datum)> {
    Seq::empty().push(("id"@, Datum::Text(row.id))).push(
        ("device_identifier"@, Datum::Text(key.1)),
    ).push(("device_name"@, read_text(row.device_name))).push(
        ("device_type"@, read_integer(row.device_type)),
    ).push(("remember_token_hash"@, read_text(row.remember_token_hash))).push(
        ("created_at"@, Datum::Text(row.created_at)),
    ).push(("updated_at"@, Datum::Text(row.updated_at)))
}

/// Looks for a device of an account.
pub open spec fn is_known(user_id: Seq<char>, device_identifier: Seq<char>) -> Query {
    query(DEVICE_IS_KNOWN@, Fetch::FirstOk).bind(Bound::Text(user_id)).bind(
        Bound::Text(device_identifier),
    )
}

// ---- what every statement keeps ----

/// Whatever statement runs, the table keeps to its constraints, no account comes or goes, and no
/// device is lost.
pub proof fn law_statements_keep_the_store(store: Store, q: Query)
    requires
        store.well_formed(),
    ensures
        after_note(store, q) matches Some(next) ==> next.well_formed() && next.accounts
            == store.accounts && store.devices.dom().subset_of(next.devices.dom()),
        after_save(store, q) matches Some(next) ==> next.well_formed() && next.accounts
            == store.accounts && store.devices.dom().subset_of(next.devices.dom()),
        after_insert(store, q) matches Some(next) ==> next.well_formed() && next.accounts
            == store.accounts && store.devices.dom().subset_of(next.devices.dom()),
        after_update(store, q).well_formed(),
        after_update(store, q).accounts == store.accounts,
        after_update(store, q).devices.dom() == store.devices.dom(),
{
    lemma_upsert_keeps(store, device_key(q, 1), bound_row(q));
    lemma_upsert_keeps(store, device_key(q, 1), bound_saved_row(q));
    let next = after_update(store, q);
    assert forall|k: (Seq<char>, Seq<char>)| store.devices.dom().contains(k) implies (
    #[trigger] next.devices[k]).id == store.devices[k].id by {}
}

proof fn lemma_upsert_keeps(store: Store, key: (Seq<char>, Seq<char>), row: DeviceRow)
    requires
        store.well_formed(),
    ensures
        inserted(store, key, row) matches Some(next) ==> next.well_formed(),
        upserted(store, key, row) matches Some(next) ==> next.well_formed(),
{
    if let Some(next) = upserted(store, key, row) {
        assert forall|k: (Seq<char>, Seq<char>), l: (Seq<char>, Seq<char>)|
            #![trigger next.devices[k], next.devices[l]]
            next.devices.dom().contains(k) && next.devices.dom().contains(l) && next.devices[k].id
                == next.devices[l].id implies k == l by {
            assert(k != key ==> next.devices[k] == store.devices[k]);
            assert(l != key ==> next.devices[l] == store.devices[l]);
            assert(store.devices.dom().contains(key) ==> next.devices[key].id
                == store.devices[key].id);
        }
    }
}

// ---- noting ----

/// Whether a row can be written for `key` with the identifier: the account is there, and no other
/// row has the identifier.
pub open spec fn can_write(store: Store, key: (Seq<char>, Seq<char>), id: Seq<char>) -> bool {
    store.accounts.contains(key.0) && store.has_free(key, id)
}

/// A device that `device_token` notes, or `get_device_by_identifier` adds, is held for the caller's
/// account under the identifier that it was asked for. The statements run where the account is
/// there and the new row's identifier is no other row's; the one that adds also needs the device
/// not to be held.
pub proof fn law_noted_device_is_held(
    store: Store,
    id: Seq<char>,
    user_id: Seq<char>,
    device_identifier: Seq<char>,
    name: Option<Seq<char>>,
    device_type: Option<int>,
    now: Timestamp,
)
    requires
        store.well_formed(),
    ensures
        ({
            let q = new_device(
                NOTE_DEVICE@,
                id,
                user_id,
                device_identifier,
                name,
                device_type,
                now,
            );
            &&& after_note(store, q) matches Some(next) ==> next.holds(user_id, device_identifier)
            &&& can_write(store, (user_id, device_identifier), id) ==> after_note(store, q) is Some
            &&& !can_write(store, (user_id, device_identifier), id) && !store.holds(
                user_id,
                device_identifier,
            ) ==> after_note(store, q) is None
        }),
        ({
            let q = new_device(
                INSERT_DEVICE@,
                id,
                user_id,
                device_identifier,
                name,
                device_type,
                now,
            );
            &&& after_insert(store, q) matches Some(next) ==> next.holds(
                user_id,
                device_identifier,
            )
            &&& after_insert(store, q) is Some <==> can_write(
                store,
                (user_id, device_identifier),
                id,
            ) && !store.holds(user_id, device_identifier)
        }),
{
}

/// A device that signs in is held for the account under the identifier that the form says, where
/// the statement that saves it runs: the account is there and the new row's identifier is no other
/// row's.
pub proof fn law_saved_device_is_held(
    store: Store,
    form: TokenForm,
    user_id: Seq<char>,
    device_identifier: Seq<char>,
    remember_token: Option<Seq<char>>,
    id: Seq<char>,
    now: Timestamp,
)
    requires
        store.well_formed(),
    ensures
        ({
            let q = save_device(form, user_id, device_identifier, remember_token, id, now);
            &&& after_save(store, q) matches Some(next) ==> next.holds(user_id, device_identifier)
            &&& can_write(store, (user_id, device_identifier), id) ==> after_save(store, q) is Some
            &&& !can_write(store, (user_id, device_identifier), id) && !store.holds(
                user_id,
                device_identifier,
            ) ==> after_save(store, q) is None
        }),
{
}

/// What is held of a remember token that was sent is its digest; and a device that signs in without
/// being given one keeps the digest that it had.
pub proof fn law_saved_digest_is_held(
    store: Store,
    form: TokenForm,
    user_id: Seq<char>,
    device_identifier: Seq<char>,
    remember_token: Option<Seq<char>>,
    id: Seq<char>,
    now: Timestamp,
)
    ensures
        after_save(
            store,
            save_device(form, user_id, device_identifier, remember_token, id, now),
        ) matches Some(next) ==> next.devices[(user_id, device_identifier)].remember_token_hash == (
        match remember_token {
            Some(token) => Some(sha256_hex_of(token)),
            None => if store.holds(user_id, device_identifier) {
                store.devices[(user_id, device_identifier)].remember_token_hash
            } else {
                None
            },
        }),
{
}

/// The registering of a push token succeeds only once the device has been noted, and what is noted
/// is the caller's account and the identifier that was asked for.
pub proof fn law_registering_notes_the_device(
    user_id: Seq<char>,
    headers: Map<Seq<char>, Seq<Seq<u8>>>,
    device_identifier: Seq<char>,
    state: DeviceTokenState,
    event: Event,
    id: Seq<char>,
    now: Timestamp,
)
    ensures
        device_token_move(user_id, headers, device_identifier, state, event, id, now) matches
            Move::Answer(Ok(_)) ==> state == DeviceTokenState::Noting && event == Event::Done,
        device_token_move(user_id, headers, device_identifier, state, event, id, now) matches
            Move::Perform(work, DeviceTokenState::Noting) ==> work == Work::Query(
            new_device(
                NOTE_DEVICE@,
                id,
                user_id,
                device_identifier,
                inferred_name(headers),
                inferred_type(headers),
                now,
            ),
        ),
{
}

/// A device is shown only once its row was found, or was added and found again; and what is added
/// is the caller's account and the identifier that was asked for.
pub proof fn law_shown_device_was_found_or_added(
    user_id: Seq<char>,
    headers: Map<Seq<char>, Seq<Seq<u8>>>,
    device_identifier: Seq<char>,
    stage: GetDeviceStage,
    event: Event,
    id: Seq<char>,
    now: Timestamp,
)
    ensures
        get_device_move(user_id, headers, device_identifier, stage, event, id, now) matches
            Move::Answer(Ok(_)) ==> stage is Updating || (stage is Finding || stage is Rereading)
            && (event matches Event::Row(row) && row is Some),
        get_device_move(user_id, headers, device_identifier, stage, event, id, now) matches
            Move::Perform(_, GetDeviceStage::Updating { .. }) ==> (stage is Finding
            || stage is Rereading) && (event matches Event::Row(row) && row is Some),
        get_device_move(user_id, headers, device_identifier, stage, event, id, now) matches
            Move::Perform(_, GetDeviceStage::Rereading { .. }) ==> stage is Inserting && event
            == Event::Done,
        get_device_move(user_id, headers, device_identifier, stage, event, id, now) matches
            Move::Perform(work, GetDeviceStage::Inserting { .. }) ==> work == Work::Query(
            new_device(
                INSERT_DEVICE@,
                id,
                user_id,
                device_identifier,
                inferred_name(headers),
                inferred_type(headers),
                now,
            ),
        ),
{
}

// ---- what was noted is known ----

/// A device that the table holds for an account is known: asked with the account's address in
/// URL-safe base64 and the device's identifier, `knowndevice` looks the account up by the address in
/// lower case, looks for the device of the account that it finds, and answers yes.
pub proof fn law_held_device_is_known(
    headers: Map<Seq<char>, Seq<Seq<u8>>>,
    email: Seq<char>,
    device_identifier: Seq<char>,
    user_id: Seq<char>,
    store: Store,
    event: Event,
)
    requires
        header_text(headers, "x-request-email"@) == Some(
            base64url_text(vstd::utf8::encode_utf8(email)),
        ),
        header_text(headers, "x-device-identifier"@) == Some(device_identifier),
        store.holds(user_id, device_identifier),
    ensures
        knowndevice_move(headers, KnownDeviceStage::Preparing(TableStage::Alter), event)
            == Move::Perform(
            Work::Query(
                query(USER_ID_BY_EMAIL@, Fetch::FirstId).bind(Bound::Text(lowercase(email))),
            ),
            KnownDeviceStage::FindingUser { device_identifier },
        ),
        knowndevice_move(
            headers,
            KnownDeviceStage::FindingUser { device_identifier },
            Event::Id(Some(user_id)),
        ) == Move::Perform(
            Work::Query(is_known(user_id, device_identifier)),
            KnownDeviceStage::FindingDevice,
        ),
        knowndevice_move(
            headers,
            KnownDeviceStage::FindingDevice,
            looked_for(store, is_known(user_id, device_identifier)),
        ) == Move::<KnownDeviceStage>::Answer(
            Ok(document_response(200, Document::Bool(true))),
        ),
{
    law_encoded_text_reads_back(email);
}

/// A device that the table does not hold is not known.
pub proof fn law_other_device_is_not_known(
    headers: Map<Seq<char>, Seq<Seq<u8>>>,
    device_identifier: Seq<char>,
    user_id: Seq<char>,
    store: Store,
)
    requires
        !store.holds(user_id, device_identifier),
    ensures
        knowndevice_move(
            headers,
            KnownDeviceStage::FindingDevice,
            looked_for(store, is_known(user_id, device_identifier)),
        ) == Move::<KnownDeviceStage>::Answer(
            Ok(document_response(200, Document::Bool(false))),
        ),
{
}

/// The last thing that `run` asked for before it answered was to save the device; and once that
/// statement has run, the device is held for the account.
pub open spec fn holds_after(
    store: Store,
    run: Seq<Exchange>,
    user_id: Seq<char>,
    device_identifier: Seq<char>,
) -> bool {
    &&& run.len() >= 2
    &&& run.last().event == Event::Done
    &&& run[run.len() - 2].next matches Move::Perform(Work::Query(q), _) && q.sql == SAVE_DEVICE@
        && (after_save(store, q) matches Some(next) ==> next.holds(user_id, device_identifier))
}

/// A device that was sent tokens by a password is held for the account that signed in, from before
/// they were sent.
pub proof fn law_device_that_signed_in_is_held(
    headers: Map<Seq<char>, Seq<Seq<u8>>>,
    form: TokenForm,
    keys: Keys,
    run: Seq<Exchange>,
    response: Response,
    store: Store,
)
    requires
        store.well_formed(),
        is_run(headers, form, keys, run),
        run.len() >= 1,
        run.last().next == Move::<TokenStage>::Answer(Ok(response)),
        response.status == 200,
        form.grant_type == "password"@,
        form.device_identifier is Some,
    ensures
        exists|user: Account| #[trigger]
            signed_in(headers, form, keys, run, user) && holds_after(
                store,
                run,
                user.id,
                form.device_identifier->0,
            ),
{
    reveal_strlit("password");
    reveal_strlit("refresh_token");
    assert("password"@.len() != "refresh_token"@.len());
    law_tokens_are_earned(headers, form, keys, run, response);
    let (user, issue, remember_token, now) = choose|
        user: Account,
        issue: Issue,
        remember_token: Option<Seq<char>>,
        now: Timestamp,
    | #[trigger]
        sent_to_who_signed_in(headers, form, keys, run, user, issue, remember_token, now);
    let device_identifier = form.device_identifier->0;
    let next = run[run.len() - 2].next;
    assert(device_noted(form, next, user.id, remember_token));
    let (id, at) = choose|id: Seq<char>, at: Timestamp|
        random_uuid(id) && at.dated() && (next matches Move::Perform(work, _) && work
            == Work::Query(
            #[trigger] save_device(form, user.id, device_identifier, remember_token, id, at),
        ));
    law_saved_device_is_held(store, form, user.id, device_identifier, remember_token, id, at);
    assert(signed_in(headers, form, keys, run, user));
}

// ---- noting again ----

/// A device that is noted twice, and says the same of itself, is the same but for the time when it
/// was last seen: one row for the account and the identifier, with the row's identifier, the time
/// when it was made, the name, the type and the digest as they were; and no other row changes. The
/// second statement runs where its identifier is no other row's.
pub proof fn law_noting_twice_changes_only_the_time(
    store: Store,
    first: Store,
    user_id: Seq<char>,
    device_identifier: Seq<char>,
    name: Option<Seq<char>>,
    device_type: Option<int>,
    id: Seq<char>,
    now: Timestamp,
    other_id: Seq<char>,
    later: Timestamp,
)
    requires
        after_note(
            store,
            new_device(NOTE_DEVICE@, id, user_id, device_identifier, name, device_type, now),
        ) == Some(first),
    ensures
        ({
            let key = (user_id, device_identifier);
            let again = after_note(
                first,
                new_device(
                    NOTE_DEVICE@,
                    other_id,
                    user_id,
                    device_identifier,
                    name,
                    device_type,
                    later,
                ),
            );
            &&& first.has_free(key, other_id) ==> again is Some
            &&& again matches Some(next) ==> next == first.with_row(
                key,
                DeviceRow { updated_at: later.text(), ..first.devices[key] },
            )
        }),
{
}

/// Noting a device leaves what it remembers as it was: it adds no digest, and takes none away.
pub proof fn law_noting_leaves_the_digest(
    store: Store,
    id: Seq<char>,
    user_id: Seq<char>,
    device_identifier: Seq<char>,
    name: Option<Seq<char>>,
    device_type: Option<int>,
    now: Timestamp,
)
    ensures
        after_note(
            store,
            new_device(NOTE_DEVICE@, id, user_id, device_identifier, name, device_type, now),
        ) matches Some(next) ==> next.devices[(user_id, device_identifier)].remember_token_hash == (
        if store.holds(user_id, device_identifier) {
            store.devices[(user_id, device_identifier)].remember_token_hash
        } else {
            None
        }),
{
}

// ---- writing anew ----

/// Where `UPDATE_DEVICE` names the row of `key`, that row gets the new name, type and time; its
/// account, its identifiers, the time when it was made and its digest stay, and so does every other
/// row. Where it names no row, nothing changes.
pub proof fn law_update_changes_that_row_alone(
    store: Store,
    key: (Seq<char>, Seq<char>),
    q: Query,
)
    requires
        store.well_formed(),
        store.devices.dom().contains(key),
    ensures
        store.devices[key].id == bound_text(q.params[3]) ==> after_update(store, q)
            == store.with_row(key, with_update(store.devices[key], q)),
        (forall|k: (Seq<char>, Seq<char>)|
            store.devices.dom().contains(k) ==> (#[trigger] store.devices[k]).id != bound_text(
                q.params[3],
            )) ==> after_update(store, q) == store,
{
    let next = after_update(store, q);
    if store.devices[key].id == bound_text(q.params[3]) {
        let meant = store.with_row(key, with_update(store.devices[key], q));
        assert forall|k: (Seq<char>, Seq<char>)| store.devices.dom().contains(k) implies (
        #[trigger] next.devices[k]) == meant.devices[k] by {
            assert(store.devices[k].id == store.devices[key].id ==> k == key);
        }
        assert(next.devices =~= meant.devices);
    }
    if forall|k: (Seq<char>, Seq<char>)|
        store.devices.dom().contains(k) ==> (#[trigger] store.devices[k]).id != bound_text(
            q.params[3],
        ) {
        assert(next.devices =~= store.devices);
    }
}

proof fn lemma_selected(key: (Seq<char>, Seq<char>), row: DeviceRow)
    ensures
        text_in(selected(key, row), "id"@) == Some(row.id),
        text_in(selected(key, row), "device_identifier"@) == Some(key.1),
        text_in(selected(key, row), "device_name"@) == row.device_name,
        integer_in(selected(key, row), "device_type"@) == (match row.device_type {
            Some(n) => if safe_integer(n) {
                Some(n)
            } else {
                None
            },
            None => None,
        }),
        text_in(selected(key, row), "remember_token_hash"@) == row.remember_token_hash,
        text_in(selected(key, row), "created_at"@) == Some(row.created_at),
        text_in(selected(key, row), "updated_at"@) == Some(row.updated_at),
{
    reveal_strlit("id");
    reveal_strlit("device_identifier");
    reveal_strlit("device_name");
    reveal_strlit("device_type");
    reveal_strlit("remember_token_hash");
    reveal_strlit("created_at");
    reveal_strlit("updated_at");
    assert("device_name"@[7] != "device_type"@[7]);
    assert("created_at"@[0] != "updated_at"@[0]);
    assert("id"@.len() == 2 && "device_identifier"@.len() == 17 && "device_name"@.len() == 11
        && "device_type"@.len() == 11 && "remember_token_hash"@.len() == 19 && "created_at"@.len()
        == 10 && "updated_at"@.len() == 10);
    let columns = selected(key, row);
    lemma_column_at(columns, "id"@, 0);
    lemma_column_at(columns, "device_identifier"@, 1);
    lemma_column_at(columns, "device_name"@, 2);
    lemma_column_at(columns, "device_type"@, 3);
    lemma_column_at(columns, "remember_token_hash"@, 4);
    lemma_column_at(columns, "created_at"@, 5);
    lemma_column_at(columns, "updated_at"@, 6);
}

proof fn lemma_column_at(row: Seq<(Seq<char>, Datum)>, name: Seq<char>, i: int)
    requires
        0 <= i < row.len(),
        row[i].0 == name,
        forall|j: int| 0 <= j < i ==> (#[trigger] row[j]).0 != name,
    ensures
        column(row, name) == Some(row[i].1),
    decreases i,
{
    if i > 0 {
        assert(row[0].0 != name);
        assert forall|j: int| 0 <= j < i - 1 implies (#[trigger] row.skip(1)[j]).0 != name by {
            assert(row.skip(1)[j] == row[j + 1]);
        }
        lemma_column_at(row.skip(1), name, i - 1);
    }
}

/// When the showing of one device writes its row anew, that row alone changes, and it then is the
/// row with what the device says of itself before what was stored.
pub proof fn law_showing_rewrites_the_row(
    store: Store,
    key: (Seq<char>, Seq<char>),
    name: Option<Seq<char>>,
    device_type: Option<int>,
    now: Timestamp,
)
    requires
        store.well_formed(),
        store.devices.dom().contains(key),
    ensures
        ({
            let row = store.devices[key];
            let q = update_device(selected(key, row), name, device_type, now);
            &&& after_update(store, q) == store.with_row(key, with_update(row, q))
            &&& rewritten(
                selected(key, row),
                selected(key, with_update(row, q)),
                name,
                device_type,
                now,
            )
        }),
{
    let row = store.devices[key];
    let q = update_device(selected(key, row), name, device_type, now);
    lemma_selected(key, row);
    lemma_selected(key, with_update(row, q));
    law_update_changes_that_row_alone(store, key, q);
    if let Some(n) = first_of(device_type, integer_in(selected(key, row), "device_type"@)) {
        if safe_integer(n) {
            law_safe_integer_is_exact(n);
        }
    }
}

// ---- the statements ----

/// The statements, word for word, as this module reads them: which rows each is about, which columns
/// it writes, and from which of its parameters.
pub proof fn law_statements_word_for_word()
    ensures
        CREATE_DEVICES@ == "CREATE TABLE IF NOT EXISTS devices (
            id TEXT PRIMARY KEY NOT NULL,
            user_id TEXT NOT NULL,
            device_identifier TEXT NOT NULL,
            device_name TEXT,
            device_type INTEGER,
            remember_token_hash TEXT,
            created_at TEXT NOT NULL,
            updated_at TEXT NOT NULL,
            UNIQUE(user_id, device_identifier),
            FOREIGN KEY (user_id) REFERENCES users(id) ON DELETE CASCADE
        )"@,
        ALTER_DEVICES@ == "ALTER TABLE devices ADD COLUMN remember_token_hash TEXT"@,
        USER_ID_BY_EMAIL@ == "SELECT id FROM users WHERE email = ?1"@,
        DEVICE_IS_KNOWN@ == "SELECT 1 AS ok FROM devices WHERE user_id = ?1 AND device_identifier = ?2 LIMIT 1"@,
        NOTE_DEVICE@ == "INSERT INTO devices (id, user_id, device_identifier, device_name, device_type, remember_token_hash, created_at, updated_at)
         VALUES (?1, ?2, ?3, ?4, ?5, NULL, ?6, ?7)
         ON CONFLICT(user_id, device_identifier) DO UPDATE SET
           updated_at = excluded.updated_at,
           device_name = COALESCE(excluded.device_name, devices.device_name),
           device_type = COALESCE(excluded.device_type, devices.device_type)"@,
        INSERT_DEVICE@ == "INSERT INTO devices (id, user_id, device_identifier, device_name, device_type, remember_token_hash, created_at, updated_at)
                 VALUES (?1, ?2, ?3, ?4, ?5, NULL, ?6, ?7)"@,
        DEVICES_OF_USER@ == "SELECT id, device_identifier, device_name, device_type, remember_token_hash, created_at, updated_at
             FROM devices
             WHERE user_id = ?1
             ORDER BY updated_at DESC"@,
        DEVICE_BY_IDENTIFIER@ == "SELECT id, device_identifier, device_name, device_type, remember_token_hash, created_at, updated_at
             FROM devices
             WHERE user_id = ?1 AND device_identifier = ?2
             LIMIT 1"@,
        DEVICE_BY_ID@ == "SELECT id, device_identifier, device_name, device_type, remember_token_hash, created_at, updated_at
                 FROM devices
                 WHERE id = ?1
                 LIMIT 1"@,
        UPDATE_DEVICE@ == "UPDATE devices SET device_name = ?1, device_type = ?2, updated_at = ?3 WHERE id = ?4"@,
        USER_BY_EMAIL@ == "SELECT * FROM users WHERE email = ?1"@,
        USER_BY_ID@ == "SELECT * FROM users WHERE id = ?1"@,
        REMEMBERED_HASH@ == "SELECT remember_token_hash FROM devices WHERE user_id = ?1 AND device_identifier = ?2"@,
        SAVE_DEVICE@ == "INSERT INTO devices (id, user_id, device_identifier, device_name, device_type, remember_token_hash, created_at, updated_at)
                     VALUES (?1, ?2, ?3, ?4, ?5, ?6, ?7, ?8)
                     ON CONFLICT(user_id, device_identifier) DO UPDATE SET
                       updated_at = excluded.updated_at,
                       device_name = COALESCE(excluded.device_name, devices.device_name),
                       device_type = COALESCE(excluded.device_type, devices.device_type),
                       remember_token_hash = COALESCE(excluded.remember_token_hash, devices.remember_token_hash)"@,
{
}

} // verus!
