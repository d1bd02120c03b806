//! Statements for the database, and what comes back from it.
use vstd::prelude::*;
use crate::request::text_view;
use crate::text::same_text;

verus! {

broadcast use vstd::string::group_string_axioms;

/// A value that is bound to a statement's parameter.
#[derive(Debug)]
pub enum SqlValue {
    Null,
    /// The database is handed the nearest double.
    Integer(i64),
    Text(String),
}

/// A bound value as a value.
#[verifier::ext_equal]
pub enum Bound {
    Null,
    Integer(int),
    Text(Seq<char>),
}

impl View for SqlValue {
    type V = Bound;

    open spec fn view(&self) -> Bound {
        match self {
            SqlValue::Null => Bound::Null,
            SqlValue::Integer(n) => Bound::Integer(*n as int),
            SqlValue::Text(s) => Bound::Text(s@),
        }
    }
}

/// How far apart the doubles around a number are, where they are a whole number apart.
pub open spec fn double_step(m: nat) -> nat
    decreases m,
{
    if m < 0x20000000000000 {
        1
    } else {
        2 * double_step(m / 2)
    }
}

/// The double that is nearest to a number; of two that are as near, the one with the even
/// significand.
pub open spec fn nearest_double(n: int) -> int {
    let m = if n < 0 {
        (-n) as nat
    } else {
        n as nat
    };
    let step = double_step(m);
    let below = m / step * step;
    let rest = m - below;
    let nearest = if 2 * rest < step || (2 * rest == step && m / step % 2 == 0) {
        below
    } else {
        below + step
    };
    if n < 0 {
        -(nearest as int)
    } else {
        nearest as int
    }
}

/// An integer that comes back as it was bound: the doubles around it are one apart.
pub open spec fn safe_integer(n: int) -> bool {
    -0x20000000000000 < n < 0x20000000000000
}

/// A safe integer is handed over as it is.
pub proof fn law_safe_integer_is_exact(n: int)
    requires
        safe_integer(n),
    ensures
        nearest_double(n) == n,
{
    let m = if n < 0 {
        -n
    } else {
        n
    };
    assert(m / 1 * 1 == m);
}

/// A text that may be missing, as it is bound.
pub open spec fn optional_text(v: Option<Seq<char>>) -> Bound {
    match v {
        Some(s) => Bound::Text(s),
        None => Bound::Null,
    }
}

/// An integer that may be missing, as it is bound.
pub open spec fn optional_integer(v: Option<int>) -> Bound {
    match v {
        Some(n) => Bound::Integer(n),
        None => Bound::Null,
    }
}

/// Binds a text that may be missing.
pub fn js_opt_string(v: Option<String>) -> (b: SqlValue)
    ensures
        b@ == optional_text(text_view(v)),
{
    match v {
        Some(v) => SqlValue::Text(v),
        None => SqlValue::Null,
    }
}

/// An integer that may be missing, as a value.
pub open spec fn integer_view(v: Option<i64>) -> Option<int> {
    match v {
        Some(n) => Some(n as int),
        None => None,
    }
}

/// Binds an integer that may be missing.
pub fn js_opt_i64(v: Option<i64>) -> (b: SqlValue)
    ensures
        b@ == optional_integer(integer_view(v)),
{
    match v {
        Some(v) => SqlValue::Integer(v),
        None => SqlValue::Null,
    }
}

/// What is fetched of a statement's result.
#[derive(Clone, Copy, Debug, PartialEq, Eq, Structural)]
pub enum Fetch {
    /// Nothing: the statement is run.
    Nothing,
    /// The first row, if there is one.
    FirstRow,
    /// The first row, read as an account.
    FirstUser,
    /// The text in the column `id` of the first row.
    FirstId,
    /// The integer in the column `ok` of the first row.
    FirstOk,
    /// All rows.
    AllRows,
}

/// A statement with its parameters.
#[derive(Debug)]
pub struct Statement {
    pub sql: &'static str,
    pub params: Vec<SqlValue>,
    pub fetch: Fetch,
}

/// A statement as a value.
#[verifier::ext_equal]
pub struct Query {
    pub sql: Seq<char>,
    pub params: Seq<Bound>,
    pub fetch: Fetch,
}

impl View for Statement {
    type V = Query;

    open spec fn view(&self) -> Query {
        Query {
            sql: self.sql@,
            params: self.params@.map_values(|p: SqlValue| p@),
            fetch: self.fetch,
        }
    }
}

/// A statement without parameters.
pub open spec fn query(sql: Seq<char>, fetch: Fetch) -> Query {
    Query { sql, params: Seq::empty(), fetch }
}

impl Query {
    /// The statement with one parameter more.
    pub open spec fn bind(self, value: Bound) -> Query {
        Query { sql: self.sql, params: self.params.push(value), fetch: self.fetch }
    }
}

impl Statement {
    /// A statement without parameters.
    pub fn new(sql: &'static str, fetch: Fetch) -> (s: Statement)
        ensures
            s@ == query(sql@, fetch),
    {
        let s = Statement { sql, params: Vec::new(), fetch };
        assert(s@.params =~= Seq::<Bound>::empty());
        s
    }

    /// The statement with one parameter more.
    pub fn bind(self, value: SqlValue) -> (s: Statement)
        ensures
            s@ == self@.bind(value@),
    {
        let mut params = self.params;
        params.push(value);
        let s = Statement { sql: self.sql, params, fetch: self.fetch };
        assert(s@.params =~= self@.params.push(value@));
        s
    }

    /// The statement with one more parameter, a text.
    pub fn bind_text(self, text: &str) -> (s: Statement)
        ensures
            s@ == self@.bind(Bound::Text(text@)),
    {
        self.bind(SqlValue::Text(text.to_owned()))
    }
}

/// What stands in one column of a row.
#[derive(Debug)]
pub enum Cell {
    Null,
    Integer(i64),
    Text(String),
    /// A value of a kind that the handlers do not read.
    Other,
}

/// A cell as a value.
#[verifier::ext_equal]
pub enum Datum {
    Null,
    Integer(int),
    Text(Seq<char>),
    Other,
}

impl View for Cell {
    type V = Datum;

    open spec fn view(&self) -> Datum {
        match self {
            Cell::Null => Datum::Null,
            Cell::Integer(n) => Datum::Integer(*n as int),
            Cell::Text(s) => Datum::Text(s@),
            Cell::Other => Datum::Other,
        }
    }
}

/// A row: its columns, by name.
#[derive(Debug)]
pub struct Row {
    pub columns: Vec<(String, Cell)>,
}

impl View for Row {
    type V = Seq<(Seq<char>, Datum)>;

    open spec fn view(&self) -> Seq<(Seq<char>, Datum)> {
        self.columns@.map_values(|c: (String, Cell)| (c.0@, c.1@))
    }
}

/// What stands in the column `name`, the first where there are several.
pub open spec fn column(row: Seq<(Seq<char>, Datum)>, name: Seq<char>) -> Option<Datum>
    decreases row.len(),
{
    if row.len() == 0 {
        None
    } else if row[0].0 == name {
        Some(row[0].1)
    } else {
        column(row.skip(1), name)
    }
}

/// The text in the column `name`; nothing where there is no such column or no text in it.
pub open spec fn text_in(row: Seq<(Seq<char>, Datum)>, name: Seq<char>) -> Option<Seq<char>> {
    match column(row, name) {
        Some(Datum::Text(s)) => Some(s),
        _ => None,
    }
}

/// The integer in the column `name`; nothing where there is no such column or no integer in it.
pub open spec fn integer_in(row: Seq<(Seq<char>, Datum)>, name: Seq<char>) -> Option<int> {
    match column(row, name) {
        Some(Datum::Integer(n)) => Some(n),
        _ => None,
    }
}

impl Row {
    fn cell(&self, name: &str) -> (cell: Option<&Cell>)
        ensures
            match cell {
                Some(c) => column(self@, name@) == Some(c@),
                None => column(self@, name@) is None,
            },
    {
        let mut i: usize = 0;
        assert(self@.skip(0) =~= self@);
        while i < self.columns.len()
            invariant
                i <= self.columns.len(),
                column(self@, name@) == column(self@.skip(i as int), name@),
            decreases self.columns.len() - i,
        {
            assert(self@.skip(i as int)[0] == (self.columns@[i as int].0@, self.columns@[i as int].1@));
            if same_text(self.columns[i].0.as_str(), name) {
                return Some(&self.columns[i].1);
            }
            assert(self@.skip(i as int).skip(1) =~= self@.skip(i + 1));
            i = i + 1;
        }
        None
    }

    /// The text in the column `name`.
    pub fn text(&self, name: &str) -> (text: Option<String>)
        ensures
            text_view(text) == text_in(self@, name@),
    {
        match self.cell(name) {
            Some(Cell::Text(s)) => Some(s.clone()),
            _ => None,
        }
    }

    /// The integer in the column `name`.
    pub fn integer(&self, name: &str) -> (n: Option<i64>)
        ensures
            integer_view(n) == integer_in(self@, name@),
    {
        match self.cell(name) {
            Some(Cell::Integer(n)) => Some(*n),
            _ => None,
        }
    }
}

// ---- the table of devices ----

/// Makes the table of devices where it is not there yet.
pub const CREATE_DEVICES: &'static str = "CREATE TABLE IF NOT EXISTS devices (
            id TEXT PRIMARY KEY NOT NULL,
            user_id TEXT NOT NULL,
            device_identifier TEXT NOT NULL,
            device_name TEXT,
            device_type INTEGER,
            remember_token_hash TEXT,
            created_at TEXT NOT NULL,
            updated_at TEXT NOT NULL,
            UNIQUE(user_id, device_identifier),
            FOREIGN KEY (user_id) REFERENCES users(id) ON DELETE CASCADE
        )";

/// Adds the column that older tables of devices lack.
pub const ALTER_DEVICES: &'static str = "ALTER TABLE devices ADD COLUMN remember_token_hash TEXT";

/// A column is read as what stands in the first of its name: a text where it is a text, an integer
/// where it is an integer, and nothing of any other kind or where there is no such column.
pub proof fn law_first_column_is_read(row: Seq<(Seq<char>, Datum)>, name: Seq<char>, i: int)
    ensures
        0 <= i < row.len() && row[i].0 == name && (forall|j: int|
            0 <= j < i ==> (#[trigger] row[j]).0 != name) ==> {
            &&& text_in(row, name) == (match row[i].1 {
                Datum::Text(s) => Some(s),
                _ => None,
            })
            &&& integer_in(row, name) == (match row[i].1 {
                Datum::Integer(n) => Some(n),
                _ => None,
            })
        },
        (forall|j: int| 0 <= j < row.len() ==> (#[trigger] row[j]).0 != name) ==> text_in(row, name)
            is None && integer_in(row, name) is None,
    decreases row.len(),
{
    if row.len() > 0 {
        let rest = row.skip(1);
        law_first_column_is_read(rest, name, i - 1);
        assert forall|j: int| 0 <= j < rest.len() implies #[trigger] rest[j] == row[j + 1] by {}
        assert(i > 0 && i < row.len() ==> rest[i - 1] == row[i]);
    }
}

/// A statement is handed over as it is: its text, what is fetched, and each parameter in its place.
pub proof fn law_statement_is_taken_whole(statement: Statement, i: int)
    ensures
        statement@.sql == statement.sql@,
        statement@.fetch == statement.fetch,
        statement@.params.len() == statement.params@.len(),
        0 <= i < statement.params@.len() ==> statement@.params[i] == (match statement.params@[i] {
            SqlValue::Null => Bound::Null,
            SqlValue::Integer(n) => Bound::Integer(n as int),
            SqlValue::Text(s) => Bound::Text(s@),
        }),
{
}

/// A row is taken as it came: each column in its place, with its name and what stands in it.
pub proof fn law_row_is_taken_whole(row: Row, i: int)
    ensures
        row@.len() == row.columns@.len(),
        0 <= i < row.columns@.len() ==> row@[i].0 == row.columns@[i].0@ && row@[i].1 == (
        match row.columns@[i].1 {
            Cell::Null => Datum::Null,
            Cell::Integer(n) => Datum::Integer(n as int),
            Cell::Text(s) => Datum::Text(s@),
            Cell::Other => Datum::Other,
        }),
{
}

} // verus!
