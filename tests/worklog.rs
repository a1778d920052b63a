use chrono::{Datelike, Duration, Local};
use worklog::commands::{
    listing_header, listing_rows, log_line, parse_date_arg, parse_id_arg, parse_time_arg,
    resolve_listed_day, CommandError,
};
use worklog::datetime::{LogDate, LogDateTime};
use worklog::db_manager::{last_time_from, records_from_rows, set_changes, statement_of, Change, DbManager, LogRecord, SqlArg, StoreError};
use worklog::App;

fn day(year: i32, month: u32, day: u32) -> LogDate {
    LogDate { year, month, day }
}

fn at(date: LogDate, hour: u32, minute: u32) -> LogDateTime {
    LogDateTime { date, hour, minute, second: 0, nanosecond: 0 }
}

fn today() -> LogDate {
    let n = Local::now().naive_local();
    day(n.year(), n.month(), n.day())
}

fn memory_app() -> App {
    App::new(":memory:").unwrap()
}

fn memory_db() -> DbManager {
    DbManager::new(":memory:").unwrap()
}

#[test]
fn log_current_timestamp() {
    let mut app = memory_app();
    let message = "test message with current timestamp";
    let before = Local::now().naive_local();
    let line = app.log(message, None).unwrap();
    let after = Local::now().naive_local();
    let expected_before = format!("{}  {}", before.format("%d.%m.%Y %H:%M"), message);
    let expected_after = format!("{}  {}", after.format("%d.%m.%Y %H:%M"), message);
    assert!(line == expected_before || line == expected_after);
    let listing = app.ls(None, false).unwrap();
    assert!(listing.rows.iter().any(|r| r.message == message
        && (r.time == before.format("%H:%M").to_string() || r.time == after.format("%H:%M").to_string())));
}

#[test]
fn log_custom_timestamp() {
    let mut app = memory_app();
    let message = "test message with custom timestamp";
    let time_input = "10.01.2021 13:02";
    let line = app.log(message, Some(time_input)).unwrap();
    assert_eq!(line, "10.01.2021 13:02  test message with custom timestamp");
    let listing = app.ls(Some(&time_input[..10]), false).unwrap();
    assert_eq!(listing.header, "Records from 10.01.2021:");
    assert_eq!(listing.rows.len(), 1);
    assert_eq!(listing.rows[0].time, "13:02");
    assert_eq!(listing.rows[0].message, message);
}

#[test]
fn list_last_day() {
    let mut app = memory_app();
    let last_day_message = "test message from last day";
    let last_day = (Local::now() - Duration::days(1)).naive_local();
    let last_day_text = last_day.format("%d.%m.%Y %H:%M").to_string();
    app.log(last_day_message, Some(&last_day_text)).unwrap();
    let listing = app.ls(None, true).unwrap();
    assert_eq!(listing.header, format!("Records from {}:", last_day.format("%d.%m.%Y")));
    assert!(listing.rows.iter().any(|r| r.message == last_day_message
        && r.time == last_day.format("%H:%M").to_string()));
}

#[test]
fn log_then_list_shows_minute_and_message() {
    let mut app = memory_app();
    app.log("write spec", Some("10.01.2021 14:05")).unwrap();
    let listing = app.ls(Some("10.01.2021"), false).unwrap();
    assert_eq!(listing.date, day(2021, 1, 10));
    assert_eq!(listing.rows.len(), 1);
    assert_eq!(listing.rows[0].id, 1);
    assert_eq!(listing.rows[0].time, "14:05");
    assert_eq!(listing.rows[0].message, "write spec");
}

#[test]
fn insert_keeps_seconds_and_lists_them_to_the_minute() {
    let mut db = memory_db();
    let time = LogDateTime { date: day(2022, 3, 4), hour: 7, minute: 8, second: 59, nanosecond: 500_000_000 };
    db.insert("precise", time).unwrap();
    let records = db.list_date(day(2022, 3, 4)).unwrap();
    assert_eq!(records.len(), 1);
    assert_eq!(records[0].time, time);
    assert_eq!(records[0].message, "precise");
    let rows = listing_rows(&records);
    assert_eq!(rows[0].time, "07:08");
}

#[test]
fn yesterday_item_listed_with_last_flag() {
    let mut app = memory_app();
    let yesterday = (Local::now() - Duration::days(1)).naive_local();
    let text = format!("{} 09:00", yesterday.format("%d.%m.%Y"));
    app.log("yesterday item", Some(&text)).unwrap();
    let listing = app.ls(None, true).unwrap();
    assert_eq!(listing.date, day(yesterday.year(), yesterday.month(), yesterday.day()));
    assert_eq!(listing.rows.len(), 1);
    assert_eq!(listing.rows[0].time, "09:00");
    assert_eq!(listing.rows[0].message, "yesterday item");
}

#[test]
fn list_empty_day_is_empty() {
    let mut db = memory_db();
    db.insert("other day", at(day(2021, 1, 11), 10, 0)).unwrap();
    let records = db.list_date(day(2021, 1, 10)).unwrap();
    assert!(records.is_empty());
    let mut app = memory_app();
    let listing = app.ls(Some("01.02.2020"), false).unwrap();
    assert!(listing.rows.is_empty());
}

#[test]
fn list_keeps_row_order_within_a_day() {
    let mut db = memory_db();
    db.insert("late", at(day(2021, 5, 5), 18, 0)).unwrap();
    db.insert("early", at(day(2021, 5, 5), 8, 0)).unwrap();
    db.insert("next day", at(day(2021, 5, 6), 8, 0)).unwrap();
    let records = db.list_date(day(2021, 5, 5)).unwrap();
    let messages: Vec<&str> = records.iter().map(|r| r.message.as_str()).collect();
    assert_eq!(messages, vec!["late", "early"]);
    assert_eq!(records[0].id, 1);
    assert_eq!(records[1].id, 2);
}

#[test]
fn last_date_ignores_today_and_future() {
    let mut db = memory_db();
    assert!(matches!(db.get_last_date(), Err(StoreError::NotFound)));
    let t = today();
    db.insert("today", at(t, 0, 0)).unwrap();
    db.insert("future", at(day(t.year + 1, 1, 1), 12, 0)).unwrap();
    assert!(matches!(db.get_last_date(), Err(StoreError::NotFound)));
    let old = at(day(2020, 6, 1), 10, 30);
    let older = at(day(2020, 5, 31), 23, 59);
    db.insert("old", old).unwrap();
    db.insert("older", older).unwrap();
    assert_eq!(db.get_last_date().unwrap(), old);
    let later_same_day = at(day(2020, 6, 1), 11, 0);
    db.insert("later", later_same_day).unwrap();
    assert_eq!(db.get_last_date().unwrap(), later_same_day);
    assert_eq!(db.get_last_date_before(day(2020, 6, 1)).unwrap(), older);
}

#[test]
fn last_flag_falls_back_to_today() {
    let mut app = memory_app();
    let listing = app.ls(None, true).unwrap();
    assert_eq!(listing.date, today());
    assert!(listing.rows.is_empty());
}

#[test]
fn set_message_only_keeps_time() {
    let mut db = memory_db();
    let time = at(day(2021, 1, 10), 14, 5);
    db.insert("first", time).unwrap();
    db.set(1, Some("second"), None).unwrap();
    let records = db.list_date(day(2021, 1, 10)).unwrap();
    assert_eq!(records[0].message, "second");
    assert_eq!(records[0].time, time);
}

#[test]
fn set_time_only_keeps_message() {
    let mut db = memory_db();
    db.insert("kept", at(day(2021, 1, 10), 14, 5)).unwrap();
    let moved = at(day(2021, 1, 12), 9, 30);
    db.set(1, None, Some(moved)).unwrap();
    assert!(db.list_date(day(2021, 1, 10)).unwrap().is_empty());
    let records = db.list_date(day(2021, 1, 12)).unwrap();
    assert_eq!(records[0].message, "kept");
    assert_eq!(records[0].time, moved);
}

#[test]
fn set_nothing_is_a_no_op() {
    let mut db = memory_db();
    let time = at(day(2021, 1, 10), 14, 5);
    db.insert("same", time).unwrap();
    db.set(1, None, None).unwrap();
    let records = db.list_date(day(2021, 1, 10)).unwrap();
    assert_eq!(records.len(), 1);
    assert_eq!(records[0].message, "same");
    assert_eq!(records[0].time, time);
    assert!(set_changes(1, None, None).is_empty());
}

#[test]
fn set_missing_id_succeeds_without_effect() {
    let mut db = memory_db();
    let time = at(day(2021, 1, 10), 14, 5);
    db.insert("untouched", time).unwrap();
    db.set(42, Some("changed"), Some(at(day(2021, 1, 10), 1, 1))).unwrap();
    let records = db.list_date(day(2021, 1, 10)).unwrap();
    assert_eq!(records.len(), 1);
    assert_eq!(records[0].message, "untouched");
    assert_eq!(records[0].time, time);
    let mut app = memory_app();
    assert_eq!(app.set("42", Some("changed"), None).unwrap(), 42);
}

#[test]
fn delete_missing_id_reports_zero_rows() {
    let mut db = memory_db();
    assert_eq!(db.delete(7).unwrap(), 0);
    db.insert("gone", at(day(2021, 1, 10), 14, 5)).unwrap();
    assert_eq!(db.delete(1).unwrap(), 1);
    assert!(db.list_date(day(2021, 1, 10)).unwrap().is_empty());
    let mut app = memory_app();
    assert_eq!(app.delete("7").unwrap(), (7, 0));
}

#[test]
fn command_errors() {
    let mut app = memory_app();
    assert!(matches!(app.log("m", Some("2021-01-10 14:05")), Err(CommandError::BadTime)));
    assert!(matches!(app.ls(Some("10/01/2021"), false), Err(CommandError::BadDate)));
    assert!(matches!(app.ls(Some("31.02.2021"), true), Err(CommandError::BadDate)));
    assert!(matches!(app.set("x", None, None), Err(CommandError::BadId)));
    assert!(matches!(app.set("1", None, Some("soon")), Err(CommandError::BadTime)));
    assert!(matches!(app.delete("-1"), Err(CommandError::BadId)));
}

#[test]
fn store_errors() {
    assert!(matches!(DbManager::new("/nonexistent-dir/x/y.db"), Err(StoreError::Init(_))));
    assert!(matches!(App::new("/nonexistent-dir/x/y.db"), Err(StoreError::Init(_))));
    let mut db = memory_db();
    let err = db.apply(&Change::Insert { message: String::from("m"), time: at(day(2021, 1, 1), 0, 0) });
    assert!(err.is_ok());
}

#[test]
fn id_arguments() {
    assert_eq!(parse_id_arg("12").unwrap(), 12);
    assert_eq!(parse_id_arg("+7").unwrap(), 7);
    assert_eq!(parse_id_arg("4294967295").unwrap(), u32::MAX);
    assert!(matches!(parse_id_arg("4294967296"), Err(CommandError::BadId)));
    assert!(matches!(parse_id_arg(""), Err(CommandError::BadId)));
    assert!(matches!(parse_id_arg(" 3"), Err(CommandError::BadId)));
    assert!(matches!(parse_id_arg("-0"), Err(CommandError::BadId)));
}

#[test]
fn time_and_date_arguments() {
    assert_eq!(parse_time_arg("10.01.2021 14:05").unwrap(), at(day(2021, 1, 10), 14, 5));
    assert!(matches!(parse_time_arg("10.01.2021"), Err(CommandError::BadTime)));
    assert!(matches!(parse_time_arg("10.01.2021 24:05"), Err(CommandError::BadTime)));
    assert_eq!(parse_date_arg("29.02.2024").unwrap(), day(2024, 2, 29));
    assert!(matches!(parse_date_arg("29.02.2023"), Err(CommandError::BadDate)));
}

#[test]
fn text_forms() {
    let t = LogDateTime { date: day(2021, 1, 10), hour: 4, minute: 5, second: 33, nanosecond: 0 };
    assert_eq!(log_line(&t, "write spec"), "10.01.2021 04:05  write spec");
    assert_eq!(listing_header(&day(2021, 1, 9)), "Records from 09.01.2021:");
    let records = vec![LogRecord { id: 3, message: String::from("a"), time: t }];
    let rows = listing_rows(&records);
    assert_eq!(rows.len(), 1);
    assert_eq!(rows[0].id, 3);
    assert_eq!(rows[0].time, "04:05");
    assert_eq!(rows[0].message, "a");
}

#[test]
fn listed_day_choice() {
    let chosen = day(2021, 1, 10);
    let now = day(2021, 3, 1);
    let latest = at(day(2021, 2, 27), 9, 0);
    assert_eq!(resolve_listed_day(chosen, false, Some(latest), now), chosen);
    assert_eq!(resolve_listed_day(chosen, true, Some(latest), now), day(2021, 2, 27));
    assert_eq!(resolve_listed_day(chosen, true, None, now), now);
}

#[test]
fn statements_of_changes() {
    let (sql, args) = statement_of(&Change::Delete { id: 5 });
    assert_eq!(sql, "DELETE FROM logs WHERE id = ?1");
    assert!(matches!(args.as_slice(), [SqlArg::Int(5)]));
    let (sql, args) = statement_of(&Change::SetTime { id: 2, time: at(day(2021, 1, 10), 14, 5) });
    assert_eq!(sql, "UPDATE logs SET time = ?1 WHERE id = ?2");
    assert!(matches!(&args[0], SqlArg::Text(s) if s == "2021-01-10 14:05:00"));
    assert!(matches!(args[1], SqlArg::Int(2)));
    let changes = set_changes(9, Some("m"), Some(at(day(2021, 1, 10), 14, 5)));
    assert_eq!(changes.len(), 2);
    assert!(matches!(&changes[0], Change::SetMessage { id: 9, message } if message == "m"));
    assert!(matches!(changes[1], Change::SetTime { id: 9, .. }));
}

#[test]
fn rows_read_back_as_records() {
    let rows = vec![
        (4, String::from("a"), String::from("2021-01-10 14:05:00")),
        (9, String::from("b"), String::from("2021-01-10 14:05:07.250")),
    ];
    let records = records_from_rows(&rows).unwrap();
    assert_eq!(records.len(), 2);
    assert_eq!(records[0].id, 4);
    assert_eq!(records[0].time, at(day(2021, 1, 10), 14, 5));
    assert_eq!(records[1].message, "b");
    assert_eq!(records[1].time.second, 7);
    assert_eq!(records[1].time.nanosecond, 250_000_000);
    let bad = vec![(1, String::from("c"), String::from("10.01.2021 14:05"))];
    assert!(matches!(records_from_rows(&bad), Err(StoreError::BadStoredTime)));
}

#[test]
fn latest_time_text_read_back() {
    assert!(matches!(last_time_from(None), Err(StoreError::NotFound)));
    assert_eq!(last_time_from(Some(String::from("2020-06-01 10:30:00"))).unwrap(), at(day(2020, 6, 1), 10, 30));
    assert!(matches!(last_time_from(Some(String::from("garbage"))), Err(StoreError::BadStoredTime)));
}

#[test]
fn stored_text_keeps_the_fraction() {
    let t = LogDateTime { date: day(2021, 1, 10), hour: 14, minute: 5, second: 9, nanosecond: 1_500 };
    let (_, args) = statement_of(&Change::Insert { message: String::from("m"), time: t });
    assert!(matches!(&args[1], SqlArg::Text(s) if s == "2021-01-10 14:05:09.000001500"));
}

#[test]
fn listing_on_a_given_day() {
    let mut app = memory_app();
    app.log("older", Some("05.03.2021 08:15")).unwrap();
    app.log("latest", Some("07.03.2021 17:45")).unwrap();
    app.log("on the day", Some("09.03.2021 10:00")).unwrap();
    let today = day(2021, 3, 9);
    let last = app.ls_on(Some("01.01.2020"), true, today).unwrap();
    assert_eq!(last.date, day(2021, 3, 7));
    assert_eq!(last.header, "Records from 07.03.2021:");
    assert_eq!(last.rows.len(), 1);
    assert_eq!(last.rows[0].time, "17:45");
    assert_eq!(last.rows[0].message, "latest");
    let plain = app.ls_on(None, false, today).unwrap();
    assert_eq!(plain.date, today);
    assert_eq!(plain.rows[0].message, "on the day");
    let fallback = app.ls_on(None, true, day(2021, 3, 5)).unwrap();
    assert_eq!(fallback.date, day(2021, 3, 5));
    assert_eq!(fallback.rows[0].time, "08:15");
}
