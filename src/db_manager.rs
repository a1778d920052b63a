//! The `logs` table: one row per record, kept in an embedded database file.
use crate::datetime::{
    format_datetime, now_local, parse_datetime, LogDate, LogDateTime, STORED_DATETIME_PATTERN,
    STORED_DATE_PATTERN,
};
use crate::datetime::{format_date, four_digit_year, parsed_datetime, storable, stored_date_text, stored_datetime_text};
use crate::table_laws::lemma_latest_before_is_max;
use vstd::prelude::*;

verus! {

#[verifier::external_type_specification]
#[verifier::external_body]
pub struct ExConnection(rusqlite::Connection);

#[verifier::external_type_specification]
#[verifier::external_body]
pub struct ExSqlError(rusqlite::Error);


pub const CREATE_TABLE_SQL: &'static str = "CREATE TABLE IF NOT EXISTS logs (
                  id              INTEGER PRIMARY KEY,
                  message         TEXT NOT NULL,
                  time            DATETIME
                  )";

pub const INSERT_SQL: &'static str = "INSERT INTO logs (message, time) VALUES (?1, ?2)";

pub const SET_MESSAGE_SQL: &'static str = "UPDATE logs SET message = ?1 WHERE id = ?2";

pub const SET_TIME_SQL: &'static str = "UPDATE logs SET time = ?1 WHERE id = ?2";

pub const DELETE_SQL: &'static str = "DELETE FROM logs WHERE id = ?1";

pub const LAST_BEFORE_SQL: &'static str =
    "SELECT MAX(time) as time FROM logs WHERE DATE(time) < DATE(?1)";

pub const LIST_DATE_SQL: &'static str =
    "SELECT id, message, time FROM logs WHERE DATE(time) = DATE(?1)";

/// One row of the table.
#[derive(Debug)]
pub struct LogRecord {
    pub id: u32,
    pub message: String,
    pub time: LogDateTime,
}

/// Why an operation on the table failed.
#[derive(Debug)]
pub enum StoreError {
    /// The file could not be opened or the table could not be created.
    Init(rusqlite::Error),
    /// A change was refused by the engine.
    Write(rusqlite::Error),
    /// A query was refused by the engine.
    Query(rusqlite::Error),
    /// No record lies before the given day.
    NotFound,
    /// A stored time is not in the stored pattern.
    BadStoredTime,
}

/// A parameter bound to a statement.
pub enum SqlArg {
    Int(i64),
    Text(String),
}

/// A parameter, with its text as a sequence of characters.
pub enum SqlArgModel {
    Int(i64),
    Text(Seq<char>),
}

impl View for SqlArg {
    type V = SqlArgModel;

    open spec fn view(&self) -> SqlArgModel {
        match self {
            SqlArg::Int(i) => SqlArgModel::Int(*i),
            SqlArg::Text(s) => SqlArgModel::Text(s@),
        }
    }
}

/// One change to the table.
pub enum Change {
    Insert { message: String, time: LogDateTime },
    SetMessage { id: u32, message: String },
    SetTime { id: u32, time: LogDateTime },
    Delete { id: u32 },
}

/// A change, with its text as a sequence of characters.
pub enum ChangeModel {
    Insert { message: Seq<char>, time: LogDateTime },
    SetMessage { id: u32, message: Seq<char> },
    SetTime { id: u32, time: LogDateTime },
    Delete { id: u32 },
}

impl View for Change {
    type V = ChangeModel;

    open spec fn view(&self) -> ChangeModel {
        match self {
            Change::Insert { message, time } => ChangeModel::Insert { message: message@, time: *time },
            Change::SetMessage { id, message } => ChangeModel::SetMessage { id: *id, message: message@ },
            Change::SetTime { id, time } => ChangeModel::SetTime { id: *id, time: *time },
            Change::Delete { id } => ChangeModel::Delete { id: *id },
        }
    }
}

impl Change {
    pub open spec fn wf(&self) -> bool {
        match self {
            Change::Insert { time, .. } => time.wf(),
            Change::SetTime { time, .. } => time.wf(),
            _ => true,
        }
    }
}

/// A row of the table: identifier, message, time.
pub type RowModel = (u32, Seq<char>, LogDateTime);

impl View for LogRecord {
    type V = RowModel;

    open spec fn view(&self) -> RowModel {
        (self.id, self.message@, self.time)
    }
}

/// The largest identifier in the table, 0 when it is empty.
pub open spec fn max_id(rows: Seq<RowModel>) -> int
    decreases rows.len(),
{
    if rows.len() == 0 {
        0
    } else {
        let rest = max_id(rows.drop_last());
        if rows.last().0 > rest { rows.last().0 as int } else { rest }
    }
}

/// How many rows carry the identifier `id`.
pub open spec fn count_id(rows: Seq<RowModel>, id: u32) -> nat
    decreases rows.len(),
{
    if rows.len() == 0 {
        0
    } else {
        count_id(rows.drop_last(), id) + if rows.last().0 == id { 1nat } else { 0nat }
    }
}

/// The rows that do not carry the identifier `id`, in their order.
pub open spec fn without_id(rows: Seq<RowModel>, id: u32) -> Seq<RowModel>
    decreases rows.len(),
{
    if rows.len() == 0 {
        rows
    } else {
        let rest = without_id(rows.drop_last(), id);
        if rows.last().0 == id { rest } else { rest.push(rows.last()) }
    }
}

/// The table after the statement of one change has run, rows in their natural order.
pub open spec fn apply_change(rows: Seq<RowModel>, c: ChangeModel) -> Seq<RowModel> {
    match c {
        ChangeModel::Insert { message, time } => rows.push(((max_id(rows) + 1) as u32, message, time)),
        ChangeModel::SetMessage { id, message } => rows.map_values(
            |r: RowModel| if r.0 == id { (r.0, message, r.2) } else { r },
        ),
        ChangeModel::SetTime { id, time } => rows.map_values(
            |r: RowModel| if r.0 == id { (r.0, r.1, time) } else { r },
        ),
        ChangeModel::Delete { id } => without_id(rows, id),
    }
}

/// How many rows one change touches.
pub open spec fn affected_rows(rows: Seq<RowModel>, c: ChangeModel) -> nat {
    match c {
        ChangeModel::Insert { .. } => 1,
        ChangeModel::SetMessage { id, .. } => count_id(rows, id),
        ChangeModel::SetTime { id, .. } => count_id(rows, id),
        ChangeModel::Delete { id } => count_id(rows, id),
    }
}

/// The table after a sequence of changes, applied in order.
pub open spec fn apply_changes(rows: Seq<RowModel>, cs: Seq<ChangeModel>) -> Seq<RowModel>
    decreases cs.len(),
{
    if cs.len() == 0 {
        rows
    } else {
        apply_change(apply_changes(rows, cs.drop_last()), cs.last())
    }
}

/// The rows dated `d`, in their natural order.
pub open spec fn rows_on(rows: Seq<RowModel>, d: LogDate) -> Seq<RowModel>
    decreases rows.len(),
{
    if rows.len() == 0 {
        seq![]
    } else {
        let rest = rows_on(rows.drop_last(), d);
        if rows.last().2.date == d { rest.push(rows.last()) } else { rest }
    }
}

/// The latest time among the rows dated before `today`.
pub open spec fn latest_before(rows: Seq<RowModel>, today: LogDate) -> Option<LogDateTime>
    decreases rows.len(),
{
    if rows.len() == 0 {
        None
    } else {
        let rest = latest_before(rows.drop_last(), today);
        let t = rows.last().2;
        if t.date.before(today) {
            match rest {
                Some(u) => if u.before(t) { Some(t) } else { Some(u) },
                None => Some(t),
            }
        } else {
            rest
        }
    }
}

/// The changes that an update of record `id` makes: the message first, then the time.
pub open spec fn set_plan(id: u32, message: Option<Seq<char>>, time: Option<LogDateTime>) -> Seq<ChangeModel> {
    let first = match message {
        Some(m) => seq![ChangeModel::SetMessage { id, message: m }],
        None => seq![],
    };
    let second = match time {
        Some(t) => seq![ChangeModel::SetTime { id, time: t }],
        None => seq![],
    };
    first + second
}

/// The statement that carries out a change: its text and the parameters bound to it.
pub open spec fn statement_fits(c: ChangeModel, sql: Seq<char>, args: Seq<SqlArg>) -> bool {
    match c {
        ChangeModel::Insert { message, time } => sql == INSERT_SQL@ && args.len() == 2
            && args[0]@ == SqlArgModel::Text(message) && (storable(time) ==> args[1]@ == SqlArgModel::Text(stored_datetime_text(time))),
        ChangeModel::SetMessage { id, message } => sql == SET_MESSAGE_SQL@ && args.len() == 2
            && args[0]@ == SqlArgModel::Text(message) && args[1]@ == SqlArgModel::Int(id as i64),
        ChangeModel::SetTime { id, time } => sql == SET_TIME_SQL@ && args.len() == 2
            && (storable(time) ==> args[0]@ == SqlArgModel::Text(stored_datetime_text(time)))
            && args[1]@ == SqlArgModel::Int(id as i64),
        ChangeModel::Delete { id } => sql == DELETE_SQL@ && args.len() == 1
            && args[0]@ == SqlArgModel::Int(id as i64),
    }
}

pub open spec fn str_view(s: Option<&str>) -> Option<Seq<char>> {
    match s {
        Some(m) => Some(m@),
        None => None,
    }
}

/// The rows of the `logs` table that a connection reaches, in their natural order.
pub uninterp spec fn table_rows(conn: &rusqlite::Connection) -> Seq<RowModel>;

/// The change can be followed in the model: its time has the stored text form, and an
/// insert has an identifier left.
pub open spec fn modelled(rows: Seq<RowModel>, c: ChangeModel) -> bool {
    match c {
        ChangeModel::Insert { time, .. } => storable(time) && max_id(rows) < u32::MAX,
        ChangeModel::SetTime { time, .. } => storable(time),
        _ => true,
    }
}

/// No two rows carry the same identifier: it is the table's primary key.
pub open spec fn ids_unique(rows: Seq<RowModel>) -> bool {
    forall|i: int, j: int| 0 <= i < rows.len() && 0 <= j < rows.len() && i != j ==> (#[trigger] rows[i]).0 != (#[trigger] rows[j]).0
}

/// What the latest-time query owes for `today`, where the year has four digits and every
/// stored time has the stored form: the latest time before `today`, else `NotFound`, or a
/// failed query.
pub open spec fn last_date_fits(rows: Seq<RowModel>, today: LogDate, r: Result<LogDateTime, StoreError>) -> bool {
    four_digit_year(today.year as int) && all_storable(rows) ==> match latest_before(rows, today) {
        Some(t) => r == Ok::<LogDateTime, StoreError>(t) || (r is Err && r->Err_0 is Query),
        None => r is Err && (r->Err_0 is NotFound || r->Err_0 is Query),
    }
}

/// Every stored time has the stored text form.
pub open spec fn all_storable(rows: Seq<RowModel>) -> bool {
    forall|i: int| 0 <= i < rows.len() ==> storable(#[trigger] rows[i].2)
}

/// Query rows match table rows one for one: identifier, message, stored time text.
pub open spec fn rows_match(v: Seq<(u32, String, String)>, rows: Seq<RowModel>) -> bool {
    &&& v.len() == rows.len()
    &&& forall|i: int| 0 <= i < v.len() ==> {
        &&& (#[trigger] v[i]).0 == rows[i].0
        &&& v[i].1@ == rows[i].1
        &&& v[i].2@ == stored_datetime_text(rows[i].2)
    }
}

/// Records match table rows one for one, each time read back from its stored text.
pub open spec fn records_match(v: Seq<LogRecord>, rows: Seq<RowModel>) -> bool {
    &&& v.len() == rows.len()
    &&& forall|i: int| 0 <= i < v.len() ==> {
        &&& (#[trigger] v[i]).id == rows[i].0
        &&& v[i].message@ == rows[i].1
        &&& v[i].time == rows[i].2
    }
}

/// Relies on rusqlite's `Connection::open`: opens or creates the database file at `path`.
#[verifier::external_body]
fn open_connection(path: &str) -> (r: Result<rusqlite::Connection, rusqlite::Error>) {
    rusqlite::Connection::open(path)
}

/// Relies on rusqlite's `Connection::execute_batch`: runs the statements in `sql`.
#[verifier::external_body]
fn execute_batch(conn: &rusqlite::Connection, sql: &str) -> (r: Result<(), rusqlite::Error>)
    requires
        sql@ == CREATE_TABLE_SQL@,
{
    conn.execute_batch(sql)
}

/// Relies on rusqlite's `Connection::execute`, which binds the parameters in order and runs
/// the statement of `c` in the engine as one step: on success the table has had the change
/// made and the count is the rows it touched; on failure the table is as it was. The
/// identifier is the table's primary key, unique before and after.
#[verifier::external_body]
fn execute_change(conn: &mut rusqlite::Connection, c: &Change, sql: &str, args: &Vec<SqlArg>) -> (r:
    Result<usize, rusqlite::Error>)
    requires
        statement_fits(c@, sql@, args@),
    ensures
        r is Ok && modelled(table_rows(old(conn)), c@) ==> {
            &&& table_rows(final(conn)) == apply_change(table_rows(old(conn)), c@)
            &&& r->Ok_0 == affected_rows(table_rows(old(conn)), c@)
        },
        r is Err ==> table_rows(final(conn)) == table_rows(old(conn)),
        ids_unique(table_rows(old(conn))),
        ids_unique(table_rows(final(conn))),
{
    conn.execute(sql, rusqlite::params_from_iter(args.iter().map(|a| match a {
        SqlArg::Int(i) => rusqlite::types::Value::Integer(*i),
        SqlArg::Text(s) => rusqlite::types::Value::Text(s.clone()),
    })))
}

/// Relies on rusqlite's `Connection::query_row`, and on the engine's `MAX` and `DATE` over
/// the stored text form: the greatest stored time of a row dated before `today`, `None`
/// where there is no such row.
#[verifier::external_body]
fn query_latest_before(conn: &rusqlite::Connection, sql: &str, today: &LogDate, today_text: &str) -> (r:
    Result<Option<String>, rusqlite::Error>)
    requires
        sql@ == LAST_BEFORE_SQL@,
    ensures
        r is Ok && four_digit_year(today.year as int) && today_text@ == stored_date_text(*today)
            && all_storable(table_rows(conn)) ==> match latest_before(table_rows(conn), *today) {
            None => r->Ok_0 is None,
            Some(t) => r->Ok_0 is Some && r->Ok_0->Some_0@ == stored_datetime_text(t),
        },
{
    conn.query_row(sql, [today_text], |row| row.get(0))
}

/// Relies on rusqlite's `Connection::prepare` and `Statement::query_map`, and on the engine's
/// `DATE` over the stored text form: the rows dated `date` in their natural order, each as
/// identifier, message and stored time text.
#[verifier::external_body]
fn query_rows_on(conn: &rusqlite::Connection, sql: &str, date: &LogDate, date_text: &str) -> (r:
    Result<Vec<(u32, String, String)>, rusqlite::Error>)
    requires
        sql@ == LIST_DATE_SQL@,
    ensures
        r is Ok && four_digit_year(date.year as int) && date_text@ == stored_date_text(*date)
            && all_storable(table_rows(conn)) ==> rows_match(r->Ok_0@, rows_on(table_rows(conn), *date)),
{
    let mut stmt = conn.prepare(sql)?;
    let rows = stmt.query_map([date_text], |row| Ok((row.get(0)?, row.get(1)?, row.get(2)?)))?;
    rows.collect()
}

/// Reads query rows as records, each time from its stored text.
pub fn records_from_rows(rows: &Vec<(u32, String, String)>) -> (r: Result<Vec<LogRecord>, StoreError>)
    ensures
        r is Err <==> exists|i: int| 0 <= i < rows@.len()
            && parsed_datetime((#[trigger] rows@[i]).2@, STORED_DATETIME_PATTERN@) is None,
        r matches Err(e) ==> e is BadStoredTime,
        r matches Ok(v) ==> {
            &&& v@.len() == rows@.len()
            &&& forall|i: int| 0 <= i < v@.len() ==> {
                &&& (#[trigger] v@[i]).id == rows@[i].0
                &&& v@[i].message@ == rows@[i].1@
                &&& v@[i].time.wf()
                &&& parsed_datetime(rows@[i].2@, STORED_DATETIME_PATTERN@) == Some(v@[i].time.fields())
            }
        },
        forall|i: int, t: LogDateTime| #![trigger rows@[i], stored_datetime_text(t)]
            0 <= i < rows@.len() && storable(t) && rows@[i].2@ == stored_datetime_text(t) && r is Ok
            ==> r->Ok_0@[i].time == t,
        (forall|i: int| 0 <= i < rows@.len() ==> exists|t: LogDateTime| storable(t) && (#[trigger] rows@[i]).2@ == stored_datetime_text(t))
            ==> r is Ok,
{
    let mut records: Vec<LogRecord> = Vec::new();
    let mut i: usize = 0;
    while i < rows.len()
        invariant
            i <= rows@.len(),
            records@.len() == i,
            forall|j: int| 0 <= j < i ==> parsed_datetime((#[trigger] rows@[j]).2@, STORED_DATETIME_PATTERN@) is Some,
            forall|j: int, t: LogDateTime| #![trigger rows@[j], stored_datetime_text(t)]
                0 <= j < i && storable(t) && rows@[j].2@ == stored_datetime_text(t) ==> records@[j].time == t,
            forall|j: int| 0 <= j < i ==> {
                &&& (#[trigger] records@[j]).id == rows@[j].0
                &&& records@[j].message@ == rows@[j].1@
                &&& records@[j].time.wf()
                &&& parsed_datetime(rows@[j].2@, STORED_DATETIME_PATTERN@) == Some(records@[j].time.fields())
            },
        decreases rows@.len() - i,
    {
        let (id, message, text) = &rows[i];
        match parse_datetime(text.as_str(), STORED_DATETIME_PATTERN) {
            Some(time) => records.push(LogRecord { id: *id, message: message.clone(), time }),
            None => {
                assert(parsed_datetime(rows@[i as int].2@, STORED_DATETIME_PATTERN@) is None);
                assert forall|t: LogDateTime| storable(t) implies rows@[i as int].2@ != stored_datetime_text(t) by {}
                assert(!(exists|t: LogDateTime| storable(t) && rows@[i as int].2@ == stored_datetime_text(t)));
                return Err(StoreError::BadStoredTime);
            },
        }
        i += 1;
    }
    Ok(records)
}

/// Reads the latest stored time: none is `NotFound`, a text that does not parse is
/// `BadStoredTime`.
pub fn last_time_from(v: Option<String>) -> (r: Result<LogDateTime, StoreError>)
    ensures
        match v {
            None => r is Err && r->Err_0 is NotFound,
            Some(s) => match parsed_datetime(s@, STORED_DATETIME_PATTERN@) {
                Some(f) => r matches Ok(t) && t.wf() && t.fields() == f,
                None => r is Err && r->Err_0 is BadStoredTime,
            },
        },
        forall|t: LogDateTime| v is Some && storable(t) && v->Some_0@ == #[trigger] stored_datetime_text(t)
            ==> r == Ok::<LogDateTime, StoreError>(t),
{
    match v {
        None => Err(StoreError::NotFound),
        Some(text) => match parse_datetime(text.as_str(), STORED_DATETIME_PATTERN) {
            Some(t) => Ok(t),
            None => Err(StoreError::BadStoredTime),
        },
    }
}

/// The text and parameters of the statement that carries out `c`.
pub fn statement_of(c: &Change) -> (r: (&'static str, Vec<SqlArg>))
    requires
        c.wf(),
    ensures
        statement_fits(c@, r.0@, r.1@),
{
    let mut args: Vec<SqlArg> = Vec::new();
    match c {
        Change::Insert { message, time } => {
            args.push(SqlArg::Text(message.clone()));
            args.push(SqlArg::Text(format_datetime(time, STORED_DATETIME_PATTERN)));
            (INSERT_SQL, args)
        },
        Change::SetMessage { id, message } => {
            args.push(SqlArg::Text(message.clone()));
            args.push(SqlArg::Int(*id as i64));
            (SET_MESSAGE_SQL, args)
        },
        Change::SetTime { id, time } => {
            args.push(SqlArg::Text(format_datetime(time, STORED_DATETIME_PATTERN)));
            args.push(SqlArg::Int(*id as i64));
            (SET_TIME_SQL, args)
        },
        Change::Delete { id } => {
            args.push(SqlArg::Int(*id as i64));
            (DELETE_SQL, args)
        },
    }
}

/// The changes that an update of record `id` makes, in the order they are made.
pub fn set_changes(id: u32, message: Option<&str>, time: Option<LogDateTime>) -> (r: Vec<Change>)
    ensures
        r@.len() == set_plan(id, str_view(message), time).len(),
        forall|i: int| 0 <= i < r@.len() ==> #[trigger] r@[i]@ == set_plan(id, str_view(message), time)[i],
        (time matches Some(t) ==> t.wf()) ==> forall|i: int| 0 <= i < r@.len() ==> (#[trigger] r@[i]).wf(),
{
    let mut r: Vec<Change> = Vec::new();
    if let Some(m) = message {
        r.push(Change::SetMessage { id, message: m.to_owned() });
    }
    if let Some(t) = time {
        r.push(Change::SetTime { id, time: t });
    }
    r
}

proof fn lemma_rows_on_storable(rows: Seq<RowModel>, d: LogDate)
    requires
        all_storable(rows),
    ensures
        all_storable(rows_on(rows, d)),
    decreases rows.len(),
{
    if rows.len() > 0 {
        let rest = rows.drop_last();
        assert forall|i: int| 0 <= i < rest.len() implies storable(#[trigger] rest[i].2) by {
            assert(rest[i] == rows[i]);
        }
        lemma_rows_on_storable(rest, d);
        assert(storable(rows[rows.len() - 1].2));
        let on = rows_on(rows, d);
        assert forall|i: int| 0 <= i < on.len() implies storable(#[trigger] on[i].2) by {
            if i < rows_on(rest, d).len() {
                assert(on[i] == rows_on(rest, d)[i]);
            }
        }
    }
}

/// A handle on the table, open for the life of the process.
pub struct DbManager {
    connection: rusqlite::Connection,
}

/// The changes of an update can all be followed in the model.
pub open spec fn set_modelled(time: Option<LogDateTime>) -> bool {
    time matches Some(t) ==> storable(t)
}

impl DbManager {
    /// The rows of the table, in their natural order.
    pub closed spec fn rows(&self) -> Seq<RowModel> {
        table_rows(&self.connection)
    }

    /// Opens or creates the database file and creates the table where it is missing.
    pub fn new(db_file_name: &str) -> (r: Result<DbManager, StoreError>)
        ensures
            r matches Err(e) ==> e is Init,
    {
        let conn = match open_connection(db_file_name) {
            Ok(c) => c,
            Err(e) => return Err(StoreError::Init(e)),
        };
        match execute_batch(&conn, CREATE_TABLE_SQL) {
            Ok(()) => Ok(DbManager { connection: conn }),
            Err(e) => Err(StoreError::Init(e)),
        }
    }

    /// Carries out one change with the statement `statement_of` gives, and gives the number
    /// of rows it touched.
    pub fn apply(&mut self, c: &Change) -> (r: Result<usize, StoreError>)
        requires
            c.wf(),
        ensures
            r is Ok && modelled(old(self).rows(), c@) ==> {
                &&& final(self).rows() == apply_change(old(self).rows(), c@)
                &&& r->Ok_0 == affected_rows(old(self).rows(), c@)
            },
            r matches Err(e) ==> e is Write && final(self).rows() == old(self).rows(),
            ids_unique(old(self).rows()),
            ids_unique(final(self).rows()),
    {
        let (sql, args) = statement_of(c);
        match execute_change(&mut self.connection, c, sql, &args) {
            Ok(n) => Ok(n),
            Err(e) => Err(StoreError::Write(e)),
        }
    }

    /// Appends a record; the engine assigns its identifier, one above the largest.
    pub fn insert(&mut self, message: &str, time: LogDateTime) -> (r: Result<(), StoreError>)
        requires
            time.wf(),
        ensures
            r is Ok && modelled(old(self).rows(), ChangeModel::Insert { message: message@, time })
                ==> final(self).rows() == apply_change(old(self).rows(), ChangeModel::Insert { message: message@, time }),
            r matches Err(e) ==> e is Write && final(self).rows() == old(self).rows(),
    {
        let c = Change::Insert { message: message.to_owned(), time };
        match self.apply(&c) {
            Ok(_) => Ok(()),
            Err(e) => Err(e),
        }
    }

    /// The latest time among the records dated before `today`.
    pub fn get_last_date_before(&self, today: LogDate) -> (r: Result<LogDateTime, StoreError>)
        requires
            today.wf(),
        ensures
            r matches Ok(t) ==> t.wf(),
            r matches Err(e) ==> e is Query || e is NotFound || e is BadStoredTime,
            last_date_fits(self.rows(), today, r),
    {
        let today_text = format_date(&today, STORED_DATE_PATTERN);
        proof {
            lemma_latest_before_is_max(self.rows(), today);
        }
        match query_latest_before(&self.connection, LAST_BEFORE_SQL, &today, today_text.as_str()) {
            Err(e) => Err(StoreError::Query(e)),
            Ok(v) => last_time_from(v),
        }
    }

    /// The latest time among the records dated before the current local day.
    pub fn get_last_date(&self) -> (r: Result<LogDateTime, StoreError>)
        ensures
            r matches Ok(t) ==> t.wf(),
            r matches Err(e) ==> e is Query || e is NotFound || e is BadStoredTime,
            exists|today: LogDate| today.wf() && last_date_fits(self.rows(), today, r),
    {
        let now = now_local();
        let r = self.get_last_date_before(now.date);
        assert(now.date.wf() && last_date_fits(self.rows(), now.date, r));
        r
    }

    /// The records dated `date`, in the engine's natural row order.
    pub fn list_date(&self, date: LogDate) -> (r: Result<Vec<LogRecord>, StoreError>)
        requires
            date.wf(),
        ensures
            r matches Ok(v) ==> forall|i: int| 0 <= i < v@.len() ==> (#[trigger] v@[i]).time.wf(),
            r matches Err(e) ==> e is Query || e is BadStoredTime,
            r is Ok && four_digit_year(date.year as int) && all_storable(self.rows())
                ==> records_match(r->Ok_0@, rows_on(self.rows(), date)),
            r is Err && four_digit_year(date.year as int) && all_storable(self.rows()) ==> r->Err_0 is Query,
    {
        let date_text = format_date(&date, STORED_DATE_PATTERN);
        let rows = match query_rows_on(&self.connection, LIST_DATE_SQL, &date, date_text.as_str()) {
            Ok(rows) => rows,
            Err(e) => return Err(StoreError::Query(e)),
        };
        proof {
            if four_digit_year(date.year as int) && all_storable(self.rows()) {
                let on = rows_on(self.rows(), date);
                lemma_rows_on_storable(self.rows(), date);
                assert forall|i: int| 0 <= i < rows@.len() implies exists|t: LogDateTime|
                    storable(t) && (#[trigger] rows@[i]).2@ == stored_datetime_text(t) by {
                    assert(storable(on[i].2) && rows@[i].2@ == stored_datetime_text(on[i].2));
                }
            }
        }
        let r = records_from_rows(&rows);
        proof {
            if r is Ok && four_digit_year(date.year as int) && all_storable(self.rows()) {
                let on = rows_on(self.rows(), date);
                assert forall|i: int| 0 <= i < on.len() implies r->Ok_0@[i].time == on[i].2 by {
                    assert(storable(on[i].2) && rows@[i].2@ == stored_datetime_text(on[i].2));
                }
            }
        }
        r
    }

    /// Replaces the message and then the time of record `id`, each only where it is given.
    /// A missing record is no error: nothing changes.
    pub fn set(&mut self, id: u32, message: Option<&str>, time: Option<LogDateTime>) -> (r: Result<(), StoreError>)
        requires
            time matches Some(t) ==> t.wf(),
        ensures
            message is None && time is None ==> r is Ok && final(self).rows() == old(self).rows(),
            r is Ok && set_modelled(time) ==> final(self).rows() == apply_changes(
                old(self).rows(),
                set_plan(id, str_view(message), time),
            ),
            r matches Err(e) ==> e is Write,
            r is Err && set_modelled(time) ==> final(self).rows() == old(self).rows() || (message is Some
                && final(self).rows() == apply_change(
                old(self).rows(),
                ChangeModel::SetMessage { id, message: message->Some_0@ },
            )),
    {
        let changes = set_changes(id, message, time);
        let ghost plan = set_plan(id, str_view(message), time);
        let ghost start = self.rows();
        proof {
            if message is None && time is None {
                assert(plan.len() == 0);
            }
            assert(plan.subrange(0, 0) =~= Seq::<ChangeModel>::empty());
        }
        let mut i: usize = 0;
        while i < changes.len()
            invariant
                i <= changes@.len(),
                changes@.len() == plan.len(),
                forall|j: int| 0 <= j < changes@.len() ==> #[trigger] changes@[j]@ == plan[j],
                message is None && time is None ==> changes@.len() == 0,
                forall|j: int| 0 <= j < changes@.len() ==> (#[trigger] changes@[j]).wf(),
                set_modelled(time) ==> self.rows() == apply_changes(start, plan.subrange(0, i as int)),
                set_modelled(time) ==> forall|j: int| 0 <= j < plan.len() ==> #[trigger] modelled(self.rows(), plan[j]),
                plan == set_plan(id, str_view(message), time),
                start == old(self).rows(),
                i <= 1 || message is Some,
            decreases changes@.len() - i,
        {
            match self.apply(&changes[i]) {
                Ok(_) => {},
                Err(e) => {
                    proof {
                        if set_modelled(time) && i == 1 {
                            let first = plan.subrange(0, 1);
                            assert(first.drop_last() =~= plan.subrange(0, 0));
                            assert(apply_changes(start, first.drop_last()) == start);
                            assert(message is Some);
                            assert(first.last() == plan[0]);
                        }
                    }
                    return Err(e);
                },
            }
            proof {
                assert(plan.subrange(0, i + 1).drop_last() =~= plan.subrange(0, i as int));
                assert(plan.subrange(0, i + 1).last() == plan[i as int]);
            }
            i += 1;
        }
        proof {
            assert(plan.subrange(0, i as int) =~= plan);
        }
        Ok(())
    }

    /// Removes record `id` and gives the number of rows removed, 0 where there was none.
    pub fn delete(&mut self, id: u32) -> (r: Result<usize, StoreError>)
        ensures
            r matches Ok(n) ==> final(self).rows() == apply_change(old(self).rows(), ChangeModel::Delete { id })
                && n == affected_rows(old(self).rows(), ChangeModel::Delete { id }),
            r matches Err(e) ==> e is Write && final(self).rows() == old(self).rows(),
            ids_unique(old(self).rows()),
    {
        self.apply(&Change::Delete { id })
    }
}

} // verus!
