//! Laws of the table model that the storage contracts are stated over: what inserts,
//! updates, deletes and the two queries do to and read from the rows.
use crate::datetime::{storable, LogDate, LogDateTime};
use crate::db_manager::{
    apply_change, apply_changes, affected_rows, count_id, latest_before, rows_on, set_plan,
    without_id, ids_unique, all_storable, ChangeModel, RowModel,
};
use vstd::prelude::*;

verus! {

/// A record that was just inserted is listed under its own date, last, with its message
/// and its time.
pub proof fn lemma_insert_then_list(rows: Seq<RowModel>, message: Seq<char>, time: LogDateTime)
    ensures
        ({
            let listed = rows_on(apply_change(rows, ChangeModel::Insert { message, time }), time.date);
            &&& listed.len() > 0
            &&& listed.last().1 == message
            &&& listed.last().2 == time
        }),
{
    let after = apply_change(rows, ChangeModel::Insert { message, time });
    assert(after.drop_last() =~= rows);
}

/// A date on which no row falls lists as the empty sequence.
pub proof fn lemma_list_empty_day(rows: Seq<RowModel>, d: LogDate)
    requires
        forall|i: int| 0 <= i < rows.len() ==> (#[trigger] rows[i]).2.date != d,
    ensures
        rows_on(rows, d) == Seq::<RowModel>::empty(),
    decreases rows.len(),
{
    if rows.len() > 0 {
        let rest = rows.drop_last();
        assert forall|i: int| 0 <= i < rest.len() implies (#[trigger] rest[i]).2.date != d by {
            assert(rest[i] == rows[i]);
        }
        lemma_list_empty_day(rest, d);
        assert(rows.last() == rows[rows.len() - 1]);
    }
}

proof fn lemma_before_order(a: LogDateTime, b: LogDateTime, c: LogDateTime)
    ensures
        !a.before(a),
        a.before(b) && b.before(c) ==> a.before(c),
        !a.before(b) && !b.before(a) ==> a.date == b.date && a.day_offset() == b.day_offset(),
        a.before(b) ==> !b.before(a),
{
}

/// The latest time before `today` is the time of a row dated before `today`, and no row
/// dated before `today` is later; there is none exactly when no row is dated before `today`.
pub proof fn lemma_latest_before_is_max(rows: Seq<RowModel>, today: LogDate)
    ensures
        match latest_before(rows, today) {
            None => forall|i: int| 0 <= i < rows.len() ==> !(#[trigger] rows[i]).2.date.before(today),
            Some(t) => {
                &&& t.date.before(today)
                &&& exists|i: int| 0 <= i < rows.len() && (#[trigger] rows[i]).2 == t
                &&& forall|i: int| 0 <= i < rows.len() && (#[trigger] rows[i]).2.date.before(today)
                    ==> !t.before(rows[i].2)
            },
        },
    decreases rows.len(),
{
    if rows.len() > 0 {
        let rest = rows.drop_last();
        let n = rows.len() - 1;
        lemma_latest_before_is_max(rest, today);
        assert forall|i: int| 0 <= i < rest.len() implies #[trigger] rest[i] == rows[i] by {}
        let r = rows[n];
        assert(rows.last() == r);
        match latest_before(rest, today) {
            None => {
                if r.2.date.before(today) {
                    assert(rows[n].2 == r.2);
                    assert forall|i: int| 0 <= i < rows.len() && (#[trigger] rows[i]).2.date.before(today)
                        implies !r.2.before(rows[i].2) by {
                        if i < n {
                            assert(rest[i] == rows[i]);
                        } else {
                            lemma_before_order(r.2, r.2, r.2);
                        }
                    }
                } else {
                    assert forall|i: int| 0 <= i < rows.len() implies !(#[trigger] rows[i]).2.date.before(today) by {
                        if i < n {
                            assert(rest[i] == rows[i]);
                        }
                    }
                }
            },
            Some(u) => {
                let k = choose|k: int| 0 <= k < rest.len() && (#[trigger] rest[k]).2 == u;
                assert(rows[k] == rest[k]);
                let t = latest_before(rows, today).unwrap();
                assert forall|i: int| 0 <= i < rows.len() && (#[trigger] rows[i]).2.date.before(today)
                    implies !t.before(rows[i].2) by {
                    lemma_before_order(u, r.2, rows[i].2);
                    lemma_before_order(r.2, u, rows[i].2);
                    lemma_before_order(rows[i].2, u, r.2);
                    lemma_before_order(u, u, u);
                    lemma_before_order(r.2, r.2, r.2);
                    if i < n {
                        assert(rest[i] == rows[i]);
                    }
                }
                if t == r.2 {
                    assert(rows[n].2 == t);
                } else {
                    assert(rows[k].2 == t);
                }
            },
        }
    }
}

/// A record dated today or later leaves the latest time before today as it was.
pub proof fn lemma_future_insert_keeps_latest(
    rows: Seq<RowModel>,
    message: Seq<char>,
    time: LogDateTime,
    today: LogDate,
)
    requires
        !time.date.before(today),
    ensures
        latest_before(apply_change(rows, ChangeModel::Insert { message, time }), today)
            == latest_before(rows, today),
{
    let after = apply_change(rows, ChangeModel::Insert { message, time });
    assert(after.drop_last() =~= rows);
}

/// After inserting a record dated today or later, with a time in the stored form, the
/// storage guards still hold and the latest time before today is the one it was.
pub proof fn lemma_future_insert_keeps_last_date(
    rows: Seq<RowModel>,
    message: Seq<char>,
    time: LogDateTime,
    today: LogDate,
)
    requires
        all_storable(rows),
        storable(time),
        !time.date.before(today),
    ensures
        all_storable(apply_change(rows, ChangeModel::Insert { message, time })),
        latest_before(apply_change(rows, ChangeModel::Insert { message, time }), today)
            == latest_before(rows, today),
{
    let after = apply_change(rows, ChangeModel::Insert { message, time });
    assert forall|i: int| 0 <= i < after.len() implies storable(#[trigger] after[i].2) by {
        if i < rows.len() {
            assert(after[i] == rows[i]);
        }
    }
    lemma_future_insert_keeps_latest(rows, message, time, today);
}

proof fn lemma_apply_one(rows: Seq<RowModel>, c: ChangeModel)
    ensures
        apply_changes(rows, seq![c]) == apply_change(rows, c),
{
    let s = seq![c];
    assert(s.drop_last() =~= Seq::<ChangeModel>::empty());
    assert(apply_changes(rows, s.drop_last()) == rows);
    assert(s.last() == c);
}

proof fn lemma_apply_two(rows: Seq<RowModel>, c: ChangeModel, d: ChangeModel)
    ensures
        apply_changes(rows, seq![c, d]) == apply_change(apply_change(rows, c), d),
{
    assert(seq![c, d].drop_last() =~= seq![c]);
    lemma_apply_one(rows, c);
}

/// An update that gives only a message keeps every identifier and time, and replaces the
/// message of the matching rows alone.
pub proof fn lemma_set_message_keeps_times(rows: Seq<RowModel>, id: u32, message: Seq<char>)
    ensures
        ({
            let after = apply_changes(rows, set_plan(id, Some(message), None));
            &&& after.len() == rows.len()
            &&& forall|i: int| 0 <= i < rows.len() ==> {
                &&& (#[trigger] after[i]).0 == rows[i].0
                &&& after[i].2 == rows[i].2
                &&& after[i].1 == if rows[i].0 == id { message } else { rows[i].1 }
            }
        }),
{
    let c = ChangeModel::SetMessage { id, message };
    assert(set_plan(id, Some(message), None) =~= seq![c]);
    lemma_apply_one(rows, c);
}

/// An update that gives only a time keeps every identifier and message, and replaces the
/// time of the matching rows alone.
pub proof fn lemma_set_time_keeps_messages(rows: Seq<RowModel>, id: u32, time: LogDateTime)
    ensures
        ({
            let after = apply_changes(rows, set_plan(id, None, Some(time)));
            &&& after.len() == rows.len()
            &&& forall|i: int| 0 <= i < rows.len() ==> {
                &&& (#[trigger] after[i]).0 == rows[i].0
                &&& after[i].1 == rows[i].1
                &&& after[i].2 == if rows[i].0 == id { time } else { rows[i].2 }
            }
        }),
{
    let c = ChangeModel::SetTime { id, time };
    assert(set_plan(id, None, Some(time)) =~= seq![c]);
    lemma_apply_one(rows, c);
}

/// An update that gives neither a message nor a time changes nothing.
pub proof fn lemma_set_nothing(rows: Seq<RowModel>, id: u32)
    ensures
        apply_changes(rows, set_plan(id, None, None)) == rows,
{
    assert(set_plan(id, None, None) =~= Seq::<ChangeModel>::empty());
}

/// No row carries `id` exactly when none is counted.
pub proof fn lemma_count_id_zero(rows: Seq<RowModel>, id: u32)
    ensures
        count_id(rows, id) == 0 <==> forall|i: int| 0 <= i < rows.len() ==> (#[trigger] rows[i]).0 != id,
    decreases rows.len(),
{
    if rows.len() > 0 {
        let rest = rows.drop_last();
        let n = rows.len() - 1;
        lemma_count_id_zero(rest, id);
        assert(rows.last() == rows[n]);
        if count_id(rows, id) == 0 {
            assert forall|i: int| 0 <= i < rows.len() implies (#[trigger] rows[i]).0 != id by {
                if i < n {
                    assert(rest[i] == rows[i]);
                }
            }
        }
        if forall|i: int| 0 <= i < rows.len() ==> (#[trigger] rows[i]).0 != id {
            assert forall|i: int| 0 <= i < rest.len() implies (#[trigger] rest[i]).0 != id by {
                assert(rest[i] == rows[i]);
            }
            assert(rows[n].0 != id);
        }
    }
}

/// Where identifiers are unique, a row that carries `id` is the only one counted.
pub proof fn lemma_count_unique_id(rows: Seq<RowModel>, id: u32)
    requires
        ids_unique(rows),
        exists|i: int| 0 <= i < rows.len() && (#[trigger] rows[i]).0 == id,
    ensures
        count_id(rows, id) == 1,
    decreases rows.len(),
{
    let n = rows.len() - 1;
    let rest = rows.drop_last();
    let k = choose|i: int| 0 <= i < rows.len() && (#[trigger] rows[i]).0 == id;
    assert(rows.last() == rows[n]);
    assert forall|i: int, j: int| 0 <= i < rest.len() && 0 <= j < rest.len() && i != j
        implies (#[trigger] rest[i]).0 != (#[trigger] rest[j]).0 by {
        assert(rest[i] == rows[i] && rest[j] == rows[j]);
    }
    if k == n {
        assert forall|i: int| 0 <= i < rest.len() implies (#[trigger] rest[i]).0 != id by {
            assert(rest[i] == rows[i]);
        }
        lemma_count_id_zero(rest, id);
    } else {
        assert(rest[k] == rows[k]);
        assert(rows[n].0 != id);
        lemma_count_unique_id(rest, id);
    }
}

/// Removing an identifier that a row carries, where identifiers are unique, touches exactly
/// one row and keeps every other.
pub proof fn lemma_delete_existing_id(rows: Seq<RowModel>, id: u32)
    requires
        ids_unique(rows),
        exists|i: int| 0 <= i < rows.len() && (#[trigger] rows[i]).0 == id,
    ensures
        affected_rows(rows, ChangeModel::Delete { id }) == 1,
        apply_change(rows, ChangeModel::Delete { id }).len() == rows.len() - 1,
{
    lemma_count_unique_id(rows, id);
    lemma_without_len(rows, id);
}

proof fn lemma_without_len(rows: Seq<RowModel>, id: u32)
    ensures
        without_id(rows, id).len() == rows.len() - count_id(rows, id),
    decreases rows.len(),
{
    if rows.len() > 0 {
        lemma_without_len(rows.drop_last(), id);
    }
}

/// An update of an identifier that no row carries changes nothing.
pub proof fn lemma_set_missing_id(
    rows: Seq<RowModel>,
    id: u32,
    message: Option<Seq<char>>,
    time: Option<LogDateTime>,
)
    requires
        forall|i: int| 0 <= i < rows.len() ==> (#[trigger] rows[i]).0 != id,
    ensures
        apply_changes(rows, set_plan(id, message, time)) == rows,
{
    match (message, time) {
        (Some(a), Some(b)) => {
            let m = ChangeModel::SetMessage { id, message: a };
            let t = ChangeModel::SetTime { id, time: b };
            assert(apply_change(rows, m) =~= rows);
            assert(apply_change(rows, t) =~= rows);
            assert(set_plan(id, message, time) =~= seq![m, t]);
            lemma_apply_two(rows, m, t);
        },
        (Some(a), None) => {
            let m = ChangeModel::SetMessage { id, message: a };
            assert(apply_change(rows, m) =~= rows);
            assert(set_plan(id, message, time) =~= seq![m]);
            lemma_apply_one(rows, m);
        },
        (None, Some(b)) => {
            let t = ChangeModel::SetTime { id, time: b };
            assert(apply_change(rows, t) =~= rows);
            assert(set_plan(id, message, time) =~= seq![t]);
            lemma_apply_one(rows, t);
        },
        (None, None) => {
            assert(set_plan(id, message, time) =~= Seq::<ChangeModel>::empty());
        },
    }
}

/// Removing an identifier that no row carries changes nothing and touches no row.
pub proof fn lemma_delete_missing_id(rows: Seq<RowModel>, id: u32)
    requires
        forall|i: int| 0 <= i < rows.len() ==> (#[trigger] rows[i]).0 != id,
    ensures
        apply_change(rows, ChangeModel::Delete { id }) == rows,
        affected_rows(rows, ChangeModel::Delete { id }) == 0,
{
    lemma_count_id_zero(rows, id);
    lemma_without_missing_id(rows, id);
}

proof fn lemma_without_missing_id(rows: Seq<RowModel>, id: u32)
    requires
        forall|i: int| 0 <= i < rows.len() ==> (#[trigger] rows[i]).0 != id,
    ensures
        without_id(rows, id) == rows,
    decreases rows.len(),
{
    if rows.len() > 0 {
        let rest = rows.drop_last();
        assert forall|i: int| 0 <= i < rest.len() implies (#[trigger] rest[i]).0 != id by {
            assert(rest[i] == rows[i]);
        }
        lemma_without_missing_id(rest, id);
        assert(rows.last() == rows[rows.len() - 1]);
        assert(rest.push(rows.last()) =~= rows);
    }
}

} // verus!
