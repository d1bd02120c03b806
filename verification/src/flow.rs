//! How a handler runs: it asks for one thing at a time, is told how it went, and answers in the
//! end.
use vstd::prelude::*;
use axum::http::HeaderMap;
use crate::error::{AppError, Failure};
use crate::headers::{has_room, header_values, no_headers};
use crate::json::{Document, Json};
use crate::request::text_view;
use crate::sql::{
    integer_view, query, Datum, Fetch, Query, Row, Statement, ALTER_DEVICES, CREATE_DEVICES,
};
use crate::tokens::{Account, ClaimSet, Claims, User};

verus! {

broadcast use vstd::string::group_string_axioms;

/// What a handler asks for.
#[derive(Debug)]
pub enum Action {
    /// A statement for the database.
    Query(Statement),
    /// Whether the user signs in with an authenticator.
    AuthenticatorEnabled { user_id: String },
    /// The user's authenticator secret, as it is stored.
    AuthenticatorSecret { user_id: String },
    /// Whether the code is the one that the stored secret gives now.
    VerifyTotp { key: Option<String>, user_id: String, secret_enc: String, code: String },
    /// The claims that a token's payload makes.
    ReadClaims { payload: String },
}

/// What is asked for, as a value.
#[verifier::ext_equal]
pub enum Work {
    Query(Query),
    AuthenticatorEnabled { user_id: Seq<char> },
    AuthenticatorSecret { user_id: Seq<char> },
    VerifyTotp {
        key: Option<Seq<char>>,
        user_id: Seq<char>,
        secret_enc: Seq<char>,
        code: Seq<char>,
    },
    ReadClaims { payload: Seq<char> },
}

impl View for Action {
    type V = Work;

    open spec fn view(&self) -> Work {
        match self {
            Action::Query(s) => Work::Query(s@),
            Action::AuthenticatorEnabled { user_id } => Work::AuthenticatorEnabled {
                user_id: user_id@,
            },
            Action::AuthenticatorSecret { user_id } => Work::AuthenticatorSecret {
                user_id: user_id@,
            },
            Action::VerifyTotp { key, user_id, secret_enc, code } => Work::VerifyTotp {
                key: text_view(*key),
                user_id: user_id@,
                secret_enc: secret_enc@,
                code: code@,
            },
            Action::ReadClaims { payload } => Work::ReadClaims { payload: payload@ },
        }
    }
}

/// How a statement failed.
#[derive(Debug)]
pub enum DbFailure {
    /// A parameter did not bind, with the platform's complaint.
    Bind(String),
    /// The statement did not run.
    Run,
    /// The rows could not be read, with the platform's complaint.
    Results(String),
}

/// How a statement failed, as a value.
#[verifier::ext_equal]
pub enum QueryFailure {
    Bind(Seq<char>),
    Run,
    Results(Seq<char>),
}

impl View for DbFailure {
    type V = QueryFailure;

    open spec fn view(&self) -> QueryFailure {
        match self {
            DbFailure::Bind(m) => QueryFailure::Bind(m@),
            DbFailure::Run => QueryFailure::Run,
            DbFailure::Results(m) => QueryFailure::Results(m@),
        }
    }
}

/// The first row, read as an account.
#[derive(Debug)]
pub enum UserRow {
    /// There is no row.
    Missing,
    /// The row is not an account.
    Malformed,
    Found(User),
}

/// The first row read as an account, as a value.
#[verifier::ext_equal]
pub enum AccountRow {
    Missing,
    Malformed,
    Found(Account),
}

impl View for UserRow {
    type V = AccountRow;

    open spec fn view(&self) -> AccountRow {
        match self {
            UserRow::Missing => AccountRow::Missing,
            UserRow::Malformed => AccountRow::Malformed,
            UserRow::Found(u) => AccountRow::Found(u@),
        }
    }
}

/// How it went.
#[derive(Debug)]
pub enum Outcome {
    /// The statement ran.
    Done,
    Row(Option<Row>),
    Rows(Vec<Row>),
    User(UserRow),
    Id(Option<String>),
    Present(Option<i64>),
    /// The statement failed.
    Failed(DbFailure),
    Enabled(Result<bool, AppError>),
    Secret(Result<Option<String>, AppError>),
    Totp(Result<bool, AppError>),
    /// The claims; nothing where the payload makes none.
    Claims(Option<Claims>),
}

/// How it went, as a value.
#[verifier::ext_equal]
pub enum Event {
    Done,
    Row(Option<Seq<(Seq<char>, Datum)>>),
    Rows(Seq<Seq<(Seq<char>, Datum)>>),
    User(AccountRow),
    Id(Option<Seq<char>>),
    Present(Option<int>),
    Failed(QueryFailure),
    Enabled(Result<bool, Failure>),
    Secret(Result<Option<Seq<char>>, Failure>),
    Totp(Result<bool, Failure>),
    Claims(Option<ClaimSet>),
}

/// A flag that may not have been had, as a value.
pub open spec fn flag_view(r: Result<bool, AppError>) -> Result<bool, Failure> {
    match r {
        Ok(b) => Ok(b),
        Err(e) => Err(e@),
    }
}

impl View for Outcome {
    type V = Event;

    open spec fn view(&self) -> Event {
        match self {
            Outcome::Done => Event::Done,
            Outcome::Row(None) => Event::Row(None),
            Outcome::Row(Some(r)) => Event::Row(Some(r@)),
            Outcome::Rows(rows) => Event::Rows(rows@.map_values(|r: Row| r@)),
            Outcome::User(u) => Event::User(u@),
            Outcome::Id(id) => Event::Id(text_view(*id)),
            Outcome::Present(n) => Event::Present(integer_view(*n)),
            Outcome::Failed(f) => Event::Failed(f@),
            Outcome::Enabled(r) => Event::Enabled(flag_view(*r)),
            Outcome::Secret(Ok(s)) => Event::Secret(Ok(text_view(*s))),
            Outcome::Secret(Err(e)) => Event::Secret(Err(e@)),
            Outcome::Totp(r) => Event::Totp(flag_view(*r)),
            Outcome::Claims(None) => Event::Claims(None),
            Outcome::Claims(Some(c)) => Event::Claims(Some(c@)),
        }
    }
}

/// What is sent back.
pub struct Reply {
    pub status: u16,
    /// The header fields beside those that the body brings.
    pub headers: HeaderMap,
    pub body: Json,
}

/// What is sent back, as a value.
#[verifier::ext_equal]
pub struct Response {
    pub status: u16,
    pub headers: Map<Seq<char>, Seq<Seq<u8>>>,
    pub body: Document,
}

impl View for Reply {
    type V = Response;

    open spec fn view(&self) -> Response {
        Response { status: self.status, headers: header_values(self.headers), body: self.body@ }
    }
}

/// A document by itself.
pub open spec fn document_response(status: u16, body: Document) -> Response {
    Response { status, headers: Map::empty(), body }
}

/// Sends back a document by itself.
pub fn document_reply(status: u16, body: Json) -> (reply: Reply)
    ensures
        reply@ == document_response(status, body@),
        has_room(header_values(reply.headers)),
{
    Reply { status, headers: no_headers(), body }
}

/// What a handler does next.
pub enum Step<S> {
    /// It asks for something, and goes on from the state when it is told how that went.
    Perform(Action, S),
    /// It answers.
    Answer(Result<Reply, AppError>),
}

/// What is done next, as a value.
#[verifier::ext_equal]
pub enum Move<V> {
    Perform(Work, V),
    Answer(Result<Response, Failure>),
}

impl<S: View> View for Step<S> {
    type V = Move<S::V>;

    open spec fn view(&self) -> Move<S::V> {
        match self {
            Step::Perform(a, s) => Move::Perform(a@, s@),
            Step::Answer(Ok(r)) => Move::Answer(Ok(r@)),
            Step::Answer(Err(e)) => Move::Answer(Err(e@)),
        }
    }
}

// ---- the table of devices ----

/// Where the making of the table of devices stands.
#[derive(Clone, Copy, Debug, PartialEq, Eq, Structural)]
pub enum TableStage {
    /// The table is being made.
    Create,
    /// The column that older tables lack is being added.
    Alter,
}

/// What is next for the table of devices.
pub enum TableStep {
    /// A statement is to be run.
    Run(Statement, TableStage),
    /// The table is there.
    Ready,
    /// The table could not be made.
    Failed(AppError),
}

/// What is next for the table of devices, as a value.
#[verifier::ext_equal]
pub enum TableMove {
    Run(Query, TableStage),
    Ready,
    Failed(Failure),
}

impl View for TableStep {
    type V = TableMove;

    open spec fn view(&self) -> TableMove {
        match self {
            TableStep::Run(s, stage) => TableMove::Run(s@, *stage),
            TableStep::Ready => TableMove::Ready,
            TableStep::Failed(e) => TableMove::Failed(e@),
        }
    }
}

/// Makes the table.
pub open spec fn create_devices() -> Query {
    query(CREATE_DEVICES@, Fetch::Nothing)
}

/// Adds the column.
pub open spec fn alter_devices() -> Query {
    query(ALTER_DEVICES@, Fetch::Nothing)
}

/// The table is made first; that must not fail. The column is added next; that fails where it is
/// there already, and how it goes does not matter.
pub open spec fn table_move(stage: TableStage, event: Event) -> TableMove {
    match stage {
        TableStage::Create => match event {
            Event::Failed(_) => TableMove::Failed(Failure::Database),
            _ => TableMove::Run(alter_devices(), TableStage::Alter),
        },
        TableStage::Alter => TableMove::Ready,
    }
}

/// How many answers are still awaited before the table of devices is there.
pub open spec fn table_rank(stage: TableStage) -> nat {
    match stage {
        TableStage::Create => 1,
        TableStage::Alter => 0,
    }
}

/// The statement that makes the table of devices.
pub fn create_devices_statement() -> (s: Statement)
    ensures
        s@ == create_devices(),
{
    Statement::new(CREATE_DEVICES, Fetch::Nothing)
}

/// Goes on with making the table of devices.
pub fn ensure_devices_table(stage: TableStage, outcome: &Outcome) -> (step: TableStep)
    ensures
        step@ == table_move(stage, outcome@),
{
    match stage {
        TableStage::Create => match outcome {
            Outcome::Failed(_) => TableStep::Failed(AppError::Database),
            _ => TableStep::Run(Statement::new(ALTER_DEVICES, Fetch::Nothing), TableStage::Alter),
        },
        TableStage::Alter => TableStep::Ready,
    }
}

/// How a failed statement is answered where the platform's complaints are passed on.
pub open spec fn failure_of(failure: QueryFailure) -> Failure {
    match failure {
        QueryFailure::Bind(m) => Failure::Worker(m),
        QueryFailure::Run => Failure::Database,
        QueryFailure::Results(m) => Failure::Worker(m),
    }
}

/// The error that a failed statement is answered with.
pub fn database_error(failure: DbFailure) -> (e: AppError)
    ensures
        e@ == failure_of(failure@),
{
    match failure {
        DbFailure::Bind(m) => AppError::Worker(m),
        DbFailure::Run => AppError::Database,
        DbFailure::Results(m) => AppError::Worker(m),
    }
}

// ---- laws ----

/// What is asked for is handed over as it is.
pub proof fn law_action_is_taken_whole(action: Action)
    ensures
        match action {
            Action::Query(s) => action@ == Work::Query(s@),
            Action::AuthenticatorEnabled { user_id } => action@ == (Work::AuthenticatorEnabled {
                user_id: user_id@,
            }),
            Action::AuthenticatorSecret { user_id } => action@ == (Work::AuthenticatorSecret {
                user_id: user_id@,
            }),
            Action::VerifyTotp { key, user_id, secret_enc, code } => action@ == (Work::VerifyTotp {
                key: text_view(key),
                user_id: user_id@,
                secret_enc: secret_enc@,
                code: code@,
            }),
            Action::ReadClaims { payload } => action@ == (Work::ReadClaims { payload: payload@ }),
        },
{
}

/// How it went is taken as it is told.
pub proof fn law_outcome_is_taken_whole(outcome: Outcome, i: int)
    ensures
        match outcome {
            Outcome::Done => outcome@ == Event::Done,
            Outcome::Row(None) => outcome@ == Event::Row(None),
            Outcome::Row(Some(r)) => outcome@ == Event::Row(Some(r@)),
            Outcome::Rows(rows) => outcome@ matches Event::Rows(v) && v.len() == rows@.len() && (0
                <= i < rows@.len() ==> v[i] == rows@[i]@),
            Outcome::User(UserRow::Missing) => outcome@ == Event::User(AccountRow::Missing),
            Outcome::User(UserRow::Malformed) => outcome@ == Event::User(AccountRow::Malformed),
            Outcome::User(UserRow::Found(u)) => outcome@ == Event::User(AccountRow::Found(u@)),
            Outcome::Id(id) => outcome@ == Event::Id(text_view(id)),
            Outcome::Present(None) => outcome@ == Event::Present(None),
            Outcome::Present(Some(n)) => outcome@ == Event::Present(Some(n as int)),
            Outcome::Failed(DbFailure::Bind(m)) => outcome@ == Event::Failed(
                QueryFailure::Bind(m@),
            ),
            Outcome::Failed(DbFailure::Run) => outcome@ == Event::Failed(QueryFailure::Run),
            Outcome::Failed(DbFailure::Results(m)) => outcome@ == Event::Failed(
                QueryFailure::Results(m@),
            ),
            Outcome::Enabled(Ok(b)) => outcome@ == Event::Enabled(Ok(b)),
            Outcome::Enabled(Err(e)) => outcome@ == Event::Enabled(Err(e@)),
            Outcome::Secret(Ok(s)) => outcome@ == Event::Secret(Ok(text_view(s))),
            Outcome::Secret(Err(e)) => outcome@ == Event::Secret(Err(e@)),
            Outcome::Totp(Ok(b)) => outcome@ == Event::Totp(Ok(b)),
            Outcome::Totp(Err(e)) => outcome@ == Event::Totp(Err(e@)),
            Outcome::Claims(None) => outcome@ == Event::Claims(None),
            Outcome::Claims(Some(c)) => outcome@ == Event::Claims(Some(c@)),
        },
{
}

/// What is sent back is taken as it is: the status, the header fields and the body.
pub proof fn law_reply_is_taken_whole<S: View>(reply: Reply, error: AppError, action: Action, state: S)
    ensures
        reply@.status == reply.status,
        reply@.headers == header_values(reply.headers),
        reply@.body == reply.body@,
        Step::<S>::Answer(Ok(reply))@ == Move::<S::V>::Answer(Ok(reply@)),
        Step::<S>::Answer(Err(error))@ == Move::<S::V>::Answer(Err(error@)),
        Step::<S>::Perform(action, state)@ == Move::<S::V>::Perform(action@, state@),
{
}

} // verus!
