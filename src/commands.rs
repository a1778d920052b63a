//! The four commands: reading their arguments, the call into the table, and the text to show.
use crate::datetime::{
    clock_text, datetime_text, date_text, format_date, format_datetime, four_digit_year, now_local,
    parse_date, parse_datetime, parsed_date, parsed_datetime, LogDate, LogDateTime, CLOCK_PATTERN,
    INPUT_DATE_PATTERN, INPUT_DATETIME_PATTERN, storable,
};
use crate::db_manager::{
    affected_rows, all_storable, apply_change, apply_changes, latest_before, modelled, rows_on, set_plan,
    str_view,
    ChangeModel, DbManager, LogRecord, RowModel, StoreError,
};
use vstd::prelude::*;
use vstd::string::*;

verus! {

/// Why a command was not carried out.
#[derive(Debug)]
pub enum CommandError {
    /// A date and time is not in the `DD.MM.YYYY HH:MM` form.
    BadTime,
    /// A date is not in the `DD.MM.YYYY` form.
    BadDate,
    /// A record identifier is not a non-negative integer that fits in 32 bits.
    BadId,
    /// The table refused the operation.
    Storage(StoreError),
}

/// One line of a listing: identifier, time of day, message.
#[derive(Debug)]
pub struct ListingRow {
    pub id: u32,
    pub time: String,
    pub message: String,
}

/// The records of one day, ready to show.
#[derive(Debug)]
pub struct Listing {
    pub date: LogDate,
    pub header: String,
    pub rows: Vec<ListingRow>,
}

pub open spec fn digit_value(c: char) -> int {
    if c == '0' { 0 }
    else if c == '1' { 1 }
    else if c == '2' { 2 }
    else if c == '3' { 3 }
    else if c == '4' { 4 }
    else if c == '5' { 5 }
    else if c == '6' { 6 }
    else if c == '7' { 7 }
    else if c == '8' { 8 }
    else { 9 }
}

pub open spec fn is_digit(c: char) -> bool {
    '0' <= c && c <= '9'
}

/// The value of a string of decimal digits.
pub open spec fn digits_value(s: Seq<char>) -> int
    decreases s.len(),
{
    if s.len() == 0 {
        0
    } else {
        digits_value(s.drop_last()) * 10 + digit_value(s.last())
    }
}

/// The number that a text denotes as a `u32`: an optional `+`, then one or more decimal
/// digits, with a value that fits.
pub open spec fn u32_text_value(s: Seq<char>) -> Option<u32> {
    let d = if s.len() > 0 && s[0] == '+' { s.subrange(1, s.len() as int) } else { s };
    if d.len() > 0 && (forall|i: int| 0 <= i < d.len() ==> is_digit(#[trigger] d[i]))
        && digits_value(d) <= u32::MAX {
        Some(digits_value(d) as u32)
    } else {
        None
    }
}

/// The line shown after a record is logged: its date and time, two spaces, its message.
pub open spec fn log_line_text(t: LogDateTime, message: Seq<char>) -> Seq<char> {
    datetime_text(t) + seq![' ', ' '] + message
}

/// The line above a listing.
pub open spec fn listing_header_text(d: LogDate) -> Seq<char> {
    "Records from "@ + date_text(d) + seq![':']
}

/// Listing lines match table rows one for one: identifier, time of day, message.
pub open spec fn listed_rows_match(v: Seq<ListingRow>, rows: Seq<RowModel>) -> bool {
    &&& v.len() == rows.len()
    &&& forall|i: int| 0 <= i < v.len() ==> {
        &&& (#[trigger] v[i]).id == rows[i].0
        &&& v[i].time@ == clock_text(rows[i].2)
        &&& v[i].message@ == rows[i].1
    }
}

/// The day that `-d` names, or `today` without it.
pub open spec fn chosen_day(date_arg: Option<&str>, today: LogDate) -> LogDate {
    match date_arg {
        Some(s) => match parsed_date(s@, INPUT_DATE_PATTERN@) {
            Some(f) => LogDate { year: f.0 as i32, month: f.1 as u32, day: f.2 as u32 },
            None => today,
        },
        None => today,
    }
}

/// What `ls` owes on day `today`, where its year has four digits and every stored time has
/// the stored form: it lists the day `listed_day` resolves to, every row of that day in order.
pub open spec fn ls_fits(
    rows: Seq<RowModel>,
    date_arg: Option<&str>,
    last: bool,
    today: LogDate,
    r: Result<Listing, CommandError>,
) -> bool {
    let day = listed_day(chosen_day(date_arg, today), last, latest_before(rows, today), today);
    four_digit_year(today.year as int) && all_storable(rows) ==> {
        &&& r is Ok ==> r->Ok_0.date == day
        &&& r is Ok && four_digit_year(day.year as int) ==> listed_rows_match(r->Ok_0.rows@, rows_on(rows, day))
        &&& r is Err && four_digit_year(day.year as int) ==> r->Err_0 is BadDate || (r->Err_0 is Storage
            && r->Err_0->Storage_0 is Query)
    }
}

/// The day that `ls` lists: with `last`, the day of the latest record before today, or today
/// where there is none; otherwise the day asked for.
pub open spec fn listed_day(chosen: LogDate, last: bool, latest: Option<LogDateTime>, today: LogDate) -> LogDate {
    if last {
        match latest {
            Some(t) => t.date,
            None => today,
        }
    } else {
        chosen
    }
}

/// Relies on `u32::from_str`: an optional `+` followed by decimal digits whose value fits in
/// `u32`; any other text, whitespace included, is refused.
#[verifier::external_body]
fn parse_u32(s: &str) -> (r: Option<u32>)
    ensures
        r == u32_text_value(s@),
{
    s.parse::<u32>().ok()
}

/// Reads a record identifier.
pub fn parse_id_arg(s: &str) -> (r: Result<u32, CommandError>)
    ensures
        match u32_text_value(s@) {
            Some(n) => r matches Ok(m) && m == n,
            None => (r is Err && r->Err_0 is BadId),
        },
{
    match parse_u32(s) {
        Some(n) => Ok(n),
        None => Err(CommandError::BadId),
    }
}

/// Reads a date and time in the `DD.MM.YYYY HH:MM` form.
pub fn parse_time_arg(s: &str) -> (r: Result<LogDateTime, CommandError>)
    ensures
        match parsed_datetime(s@, INPUT_DATETIME_PATTERN@) {
            Some(f) => r matches Ok(t) && t.wf() && t.fields() == f,
            None => (r is Err && r->Err_0 is BadTime),
        },
{
    match parse_datetime(s, INPUT_DATETIME_PATTERN) {
        Some(t) => Ok(t),
        None => Err(CommandError::BadTime),
    }
}

/// Reads a date in the `DD.MM.YYYY` form.
pub fn parse_date_arg(s: &str) -> (r: Result<LogDate, CommandError>)
    ensures
        match parsed_date(s@, INPUT_DATE_PATTERN@) {
            Some(f) => r matches Ok(d) && d.wf() && (d.year as int, d.month as int, d.day as int) == f,
            None => (r is Err && r->Err_0 is BadDate),
        },
{
    match parse_date(s, INPUT_DATE_PATTERN) {
        Some(d) => Ok(d),
        None => Err(CommandError::BadDate),
    }
}

/// The line shown after a record is logged.
pub fn log_line(time: &LogDateTime, message: &str) -> (r: String)
    requires
        time.wf(),
    ensures
        four_digit_year(time.date.year as int) ==> r@ == log_line_text(*time, message@),
{
    let mut line = format_datetime(time, INPUT_DATETIME_PATTERN);
    line.append("  ");
    line.append(message);
    proof {
        reveal_strlit("  ");
        assert("  "@ =~= seq![' ', ' ']);
        if four_digit_year(time.date.year as int) {
            assert(line@ =~= log_line_text(*time, message@));
        }
    }
    line
}

/// The line above the listing of day `d`.
pub fn listing_header(d: &LogDate) -> (r: String)
    requires
        d.wf(),
    ensures
        four_digit_year(d.year as int) ==> r@ == listing_header_text(*d),
{
    let mut line = String::from_str("Records from ");
    line.append(format_date(d, INPUT_DATE_PATTERN).as_str());
    line.append(":");
    proof {
        reveal_strlit(":");
        assert(":"@ =~= seq![':']);
        if four_digit_year(d.year as int) {
            assert(line@ =~= listing_header_text(*d));
        }
    }
    line
}

/// The day that `ls` lists.
pub fn resolve_listed_day(chosen: LogDate, last: bool, latest: Option<LogDateTime>, today: LogDate) -> (r: LogDate)
    ensures
        r == listed_day(chosen, last, latest, today),
{
    if last {
        match latest {
            Some(t) => t.date,
            None => today,
        }
    } else {
        chosen
    }
}

/// The lines of a listing, one per record and in the same order, with the time of day
/// cut to the minute.
pub fn listing_rows(records: &Vec<LogRecord>) -> (r: Vec<ListingRow>)
    requires
        forall|i: int| 0 <= i < records@.len() ==> (#[trigger] records@[i]).time.wf(),
    ensures
        r@.len() == records@.len(),
        forall|i: int| 0 <= i < r@.len() ==> {
            &&& (#[trigger] r@[i]).id == records@[i].id
            &&& r@[i].time@ == clock_text(records@[i].time)
            &&& r@[i].message@ == records@[i].message@
        },
{
    let mut rows: Vec<ListingRow> = Vec::new();
    let mut i: usize = 0;
    while i < records.len()
        invariant
            i <= records@.len(),
            rows@.len() == i,
            forall|i: int| 0 <= i < records@.len() ==> (#[trigger] records@[i]).time.wf(),
            forall|j: int| 0 <= j < i ==> {
                &&& (#[trigger] rows@[j]).id == records@[j].id
                &&& rows@[j].time@ == clock_text(records@[j].time)
                &&& rows@[j].message@ == records@[j].message@
            },
        decreases records@.len() - i,
    {
        let rec = &records[i];
        rows.push(ListingRow {
            id: rec.id,
            time: format_datetime(&rec.time, CLOCK_PATTERN),
            message: rec.message.clone(),
        });
        i += 1;
    }
    rows
}

/// The work log: the commands, over one open table.
pub struct App {
    db_manager: DbManager,
}

impl App {
    /// The rows of the table, in their natural order.
    pub closed spec fn rows(&self) -> Seq<RowModel> {
        self.db_manager.rows()
    }

    /// Opens the table in the file `db_file_name`.
    pub fn new(db_file_name: &str) -> (r: Result<App, StoreError>)
        ensures
            r matches Err(e) ==> e is Init,
    {
        match DbManager::new(db_file_name) {
            Ok(db_manager) => Ok(App { db_manager }),
            Err(e) => Err(e),
        }
    }

    /// `log`: records `message` at the time given, or now where none is, and gives the line
    /// to show.
    pub fn log(&mut self, message: &str, time_arg: Option<&str>) -> (r: Result<String, CommandError>)
        ensures
            (r is Err && r->Err_0 is BadTime) <==> (time_arg is Some && parsed_datetime(
                time_arg->Some_0@,
                INPUT_DATETIME_PATTERN@,
            ) is None),
            r matches Err(e) ==> (e is BadTime || (e is Storage && e->Storage_0 is Write)) && final(self).rows()
                == old(self).rows(),
            r is Ok ==> exists|t: LogDateTime| {
                &&& t.wf()
                &&& time_arg is Some ==> parsed_datetime(time_arg->Some_0@, INPUT_DATETIME_PATTERN@) == Some(t.fields())
                &&& four_digit_year(t.date.year as int) ==> r->Ok_0@ == log_line_text(t, message@)
                &&& modelled(old(self).rows(), ChangeModel::Insert { message: message@, time: t })
                    ==> final(self).rows() == apply_change(old(self).rows(), ChangeModel::Insert { message: message@, time: t })
            },
    {
        let time = match time_arg {
            Some(s) => match parse_time_arg(s) {
                Ok(t) => t,
                Err(e) => return Err(e),
            },
            None => now_local(),
        };
        match self.db_manager.insert(message, time) {
            Ok(()) => Ok(log_line(&time, message)),
            Err(e) => Err(CommandError::Storage(e)),
        }
    }

    /// `ls` on day `today`: the records of the day asked for, of the latest day before
    /// `today` with `last`, or of `today`.
    pub fn ls_on(&self, date_arg: Option<&str>, last: bool, today: LogDate) -> (r: Result<Listing, CommandError>)
        requires
            today.wf(),
        ensures
            (r is Err && r->Err_0 is BadDate) <==> (date_arg is Some && parsed_date(
                date_arg->Some_0@,
                INPUT_DATE_PATTERN@,
            ) is None),
            r matches Err(e) ==> e is BadDate || (e is Storage && (e->Storage_0 is Query
                || e->Storage_0 is BadStoredTime)),
            r matches Ok(l) ==> {
                &&& l.date.wf()
                &&& (!last && date_arg is Some) ==> parsed_date(date_arg->Some_0@, INPUT_DATE_PATTERN@)
                    == Some((l.date.year as int, l.date.month as int, l.date.day as int))
                &&& four_digit_year(l.date.year as int) ==> l.header@ == listing_header_text(l.date)
                &&& four_digit_year(l.date.year as int) && all_storable(self.rows()) ==> listed_rows_match(
                    l.rows@,
                    rows_on(self.rows(), l.date),
                )
            },
            ls_fits(self.rows(), date_arg, last, today, r),
    {
        let chosen = match date_arg {
            Some(s) => match parse_date_arg(s) {
                Ok(d) => d,
                Err(e) => return Err(e),
            },
            None => today,
        };
        let latest = if last {
            match self.db_manager.get_last_date_before(today) {
                Ok(t) => Some(t),
                Err(StoreError::NotFound) => None,
                Err(e) => return Err(CommandError::Storage(e)),
            }
        } else {
            None
        };
        let date = resolve_listed_day(chosen, last, latest, today);
        let records = match self.db_manager.list_date(date) {
            Ok(v) => v,
            Err(e) => return Err(CommandError::Storage(e)),
        };
        let rows = listing_rows(&records);
        proof {
            if four_digit_year(date.year as int) && all_storable(self.rows()) {
                let on = rows_on(self.rows(), date);
                assert forall|i: int| 0 <= i < rows@.len() implies rows@[i].time@ == clock_text(on[i].2) by {
                    assert(records@[i].time == on[i].2);
                }
            }
        }
        Ok(Listing { date, header: listing_header(&date), rows })
    }

    /// `ls`: the records of the day asked for, of the latest day before today with `last`,
    /// or of today.
    pub fn ls(&self, date_arg: Option<&str>, last: bool) -> (r: Result<Listing, CommandError>)
        ensures
            (r is Err && r->Err_0 is BadDate) <==> (date_arg is Some && parsed_date(
                date_arg->Some_0@,
                INPUT_DATE_PATTERN@,
            ) is None),
            r matches Err(e) ==> e is BadDate || (e is Storage && (e->Storage_0 is Query
                || e->Storage_0 is BadStoredTime)),
            exists|today: LogDate| today.wf() && ls_fits(self.rows(), date_arg, last, today, r),
    {
        let today = now_local().date;
        let r = self.ls_on(date_arg, last, today);
        assert(today.wf() && ls_fits(self.rows(), date_arg, last, today, r));
        r
    }

    /// `set`: replaces the message and the time of record `id_arg`, each only where given,
    /// and gives the identifier.
    pub fn set(&mut self, id_arg: &str, message: Option<&str>, time_arg: Option<&str>) -> (r: Result<u32, CommandError>)
        ensures
            (r is Err && r->Err_0 is BadId) <==> u32_text_value(id_arg@) is None,
            (r is Err && r->Err_0 is BadTime) <==> (u32_text_value(id_arg@) is Some && time_arg is Some
                && parsed_datetime(time_arg->Some_0@, INPUT_DATETIME_PATTERN@) is None),
            u32_text_value(id_arg@) matches Some(n) ==> (message is None && time_arg is None ==> r == Ok::<u32, CommandError>(n)),
            r matches Ok(id) ==> u32_text_value(id_arg@) == Some(id),
            r matches Err(e) ==> e is BadId || e is BadTime || (e is Storage && e->Storage_0 is Write),
            r matches Err(e) && (e is BadId || e is BadTime) ==> final(self).rows() == old(self).rows(),
            message is None && time_arg is None ==> final(self).rows() == old(self).rows(),
            r is Ok && time_arg is None ==> final(self).rows() == apply_changes(
                old(self).rows(),
                set_plan(r->Ok_0, str_view(message), None),
            ),
            r is Err && r->Err_0 is Storage && (time_arg is None || exists|t: LogDateTime| storable(t)
                && parsed_datetime(time_arg->Some_0@, INPUT_DATETIME_PATTERN@) == Some(t.fields()))
                ==> final(self).rows() == old(self).rows() || (message is Some && final(self).rows()
                == apply_change(
                old(self).rows(),
                ChangeModel::SetMessage { id: u32_text_value(id_arg@)->Some_0, message: message->Some_0@ },
            )),
            r is Ok && time_arg is Some ==> exists|t: LogDateTime| {
                &&& t.wf()
                &&& parsed_datetime(time_arg->Some_0@, INPUT_DATETIME_PATTERN@) == Some(t.fields())
                &&& storable(t) ==> final(self).rows() == apply_changes(
                    old(self).rows(),
                    set_plan(r->Ok_0, str_view(message), Some(t)),
                )
            },
    {
        let id = match parse_id_arg(id_arg) {
            Ok(n) => n,
            Err(e) => return Err(e),
        };
        let time = match time_arg {
            Some(s) => match parse_time_arg(s) {
                Ok(t) => Some(t),
                Err(e) => return Err(e),
            },
            None => None,
        };
        match self.db_manager.set(id, message, time) {
            Ok(()) => Ok(id),
            Err(e) => Err(CommandError::Storage(e)),
        }
    }

    /// `delete`: removes record `id_arg` and gives the identifier with the number of rows
    /// removed.
    pub fn delete(&mut self, id_arg: &str) -> (r: Result<(u32, usize), CommandError>)
        ensures
            (r is Err && r->Err_0 is BadId) <==> u32_text_value(id_arg@) is None,
            r matches Ok((id, _)) ==> u32_text_value(id_arg@) == Some(id),
            r is Ok ==> final(self).rows() == apply_change(old(self).rows(), ChangeModel::Delete { id: r->Ok_0.0 })
                && r->Ok_0.1 == affected_rows(old(self).rows(), ChangeModel::Delete { id: r->Ok_0.0 }),
            r matches Err(e) ==> (e is BadId || (e is Storage && e->Storage_0 is Write)) && final(self).rows()
                == old(self).rows(),
    {
        let id = match parse_id_arg(id_arg) {
            Ok(n) => n,
            Err(e) => return Err(e),
        };
        match self.db_manager.delete(id) {
            Ok(n) => Ok((id, n)),
            Err(e) => Err(CommandError::Storage(e)),
        }
    }
}

} // verus!
