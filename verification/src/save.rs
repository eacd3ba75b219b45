//! The incremental save: from the document the front end hands over and the
//! rows currently stored, the writes that bring the store up to date.
//!
//! For each collection: the stored items whose id is no longer in the
//! document are deleted, and every item that is new or whose content
//! changed is written with its position as sort index. Project stages are
//! all rewritten; note categories are cleared and rewritten; the four meta
//! keys present in the document are written.

use vstd::prelude::*;
use crate::json::{Json, JsonV, Member, MemberV, json_views, list_field, member, str_field};
use crate::schema::{
    Cell, CellV, Column, ColumnV, Record, RecordV, Row, Table, column_views, record_views,
    row_views, same_row, schema, sig_cells, sig_row, text_cell, text_in, write_cells, write_row,
};
use crate::text::owned;

verus! {

broadcast use vstd::seq_lib::group_to_multiset_ensures;

/// A subtask or log row as read back, with the id of the task it belongs to.
pub struct ChildRecord {
    pub task_id: String,
    pub record: Record,
}

pub struct ChildV {
    pub task_id: Seq<char>,
    pub record: RecordV,
}

impl View for ChildRecord {
    type V = ChildV;

    open spec fn view(&self) -> ChildV {
        ChildV { task_id: self.task_id@, record: self.record@ }
    }
}

pub open spec fn child_views(v: Seq<ChildRecord>) -> Seq<ChildV> {
    Seq::new(v.len(), |i: int| v[i]@)
}

/// Everything currently stored, as read back table by table: each table in
/// its stored order (by sort index; stages by `ord`; subtasks by task and
/// sort index; logs by task and time).
pub struct Snapshot {
    /// `app_meta` rows `[k, v]`, with the parse of `v`.
    pub meta: Vec<Record>,
    pub projects: Vec<Record>,
    pub proj_stages: Vec<Record>,
    pub clients: Vec<Record>,
    pub tags: Vec<Record>,
    pub notes: Vec<Record>,
    pub smart_lists: Vec<Record>,
    /// `note_cats` rows `[name]`.
    pub note_cats: Vec<Record>,
    pub tasks: Vec<Record>,
    pub subtasks: Vec<ChildRecord>,
    pub logs: Vec<ChildRecord>,
}

pub struct SnapshotV {
    pub meta: Seq<RecordV>,
    pub projects: Seq<RecordV>,
    pub proj_stages: Seq<RecordV>,
    pub clients: Seq<RecordV>,
    pub tags: Seq<RecordV>,
    pub notes: Seq<RecordV>,
    pub smart_lists: Seq<RecordV>,
    pub note_cats: Seq<RecordV>,
    pub tasks: Seq<RecordV>,
    pub subtasks: Seq<ChildV>,
    pub logs: Seq<ChildV>,
}

impl View for Snapshot {
    type V = SnapshotV;

    open spec fn view(&self) -> SnapshotV {
        SnapshotV {
            meta: record_views(self.meta@),
            projects: record_views(self.projects@),
            proj_stages: record_views(self.proj_stages@),
            clients: record_views(self.clients@),
            tags: record_views(self.tags@),
            notes: record_views(self.notes@),
            smart_lists: record_views(self.smart_lists@),
            note_cats: record_views(self.note_cats@),
            tasks: record_views(self.tasks@),
            subtasks: child_views(self.subtasks@),
            logs: child_views(self.logs@),
        }
    }
}

/// A row to insert or replace, with its sort index.
pub struct Upsert {
    pub row: Row,
    pub sort_idx: i64,
}

impl View for Upsert {
    type V = (Seq<CellV>, i64);

    open spec fn view(&self) -> (Seq<CellV>, i64) {
        (self.row@, self.sort_idx)
    }
}

pub open spec fn upsert_views(v: Seq<Upsert>) -> Seq<(Seq<CellV>, i64)> {
    Seq::new(v.len(), |i: int| v[i]@)
}

/// The writes to one table: ids to delete, then rows to insert or replace.
pub struct TablePlan {
    pub deletes: Vec<String>,
    pub upserts: Vec<Upsert>,
}

pub struct TablePlanV {
    pub deletes: Seq<Seq<char>>,
    pub upserts: Seq<(Seq<CellV>, i64)>,
}

pub open spec fn string_views(v: Seq<String>) -> Seq<Seq<char>> {
    Seq::new(v.len(), |i: int| v[i]@)
}

impl View for TablePlan {
    type V = TablePlanV;

    open spec fn view(&self) -> TablePlanV {
        TablePlanV { deletes: string_views(self.deletes@), upserts: upsert_views(self.upserts@) }
    }
}

// ---------------------------------------------------------------------
// Which stored items go, which document items are written.

/// The id of a stored row (its first cell).
pub open spec fn record_id(r: RecordV) -> Seq<char> {
    text_cell(r.cells, 0)
}

/// The ids of the document's items.
pub open spec fn item_ids(items: Seq<JsonV>) -> Seq<Seq<char>> {
    Seq::new(items.len(), |i: int| str_field(items[i], "id"@))
}

/// The ids of stored rows that the document no longer has, in stored order.
pub open spec fn removed_ids(cur: Seq<RecordV>, items: Seq<JsonV>) -> Seq<Seq<char>>
    decreases cur.len(),
{
    if cur.len() == 0 {
        Seq::empty()
    } else {
        let rest = removed_ids(cur.drop_last(), items);
        let id = record_id(cur.last());
        if item_ids(items).contains(id) {
            rest
        } else {
            rest.push(id)
        }
    }
}

/// The position of the first stored row with the given id.
pub open spec fn find_record(cur: Seq<RecordV>, id: Seq<char>) -> Option<int>
    decreases cur.len(),
{
    if cur.len() == 0 {
        None
    } else if record_id(cur[0]) == id {
        Some(0)
    } else {
        match find_record(cur.drop_first(), id) {
            Some(i) => Some(i + 1),
            None => None,
        }
    }
}

/// Whether item `j`, at position `pos`, is stored at that same position
/// with the same content.
pub open spec fn unchanged(cur: Seq<RecordV>, cols: Seq<ColumnV>, j: JsonV, pos: int) -> bool {
    match find_record(cur, str_field(j, "id"@)) {
        Some(ci) => ci == pos && sig_cells(cur[ci], cols) == write_cells(j, cols, pos),
        None => false,
    }
}

/// The rows written for a collection: every item that is new, moved or
/// changed (every item when `detect` is off), with its position as sort
/// index.
pub open spec fn written(items: Seq<JsonV>, cur: Seq<RecordV>, cols: Seq<ColumnV>, detect: bool) -> Seq<
    (Seq<CellV>, i64),
>
    decreases items.len(),
{
    if items.len() == 0 {
        Seq::empty()
    } else {
        let i = items.len() - 1;
        let rest = written(items.drop_last(), cur, cols, detect);
        if detect && unchanged(cur, cols, items[i], i) {
            rest
        } else {
            rest.push((write_cells(items[i], cols, i), i as i64))
        }
    }
}

/// The plan for one collection.
pub open spec fn table_plan(items: Seq<JsonV>, cur: Seq<RecordV>, cols: Seq<ColumnV>, detect: bool) -> TablePlanV {
    TablePlanV { deletes: removed_ids(cur, items), upserts: written(items, cur, cols, detect) }
}

pub proof fn lemma_find_record_none(cur: Seq<RecordV>, id: Seq<char>)
    requires
        forall|k: int| 0 <= k < cur.len() ==> record_id(#[trigger] cur[k]) != id,
    ensures
        find_record(cur, id) is None,
    decreases cur.len(),
{
    if cur.len() > 0 {
        assert forall|k: int| 0 <= k < cur.len() - 1 implies record_id(#[trigger] cur.drop_first()[k]) != id by {
            assert(cur.drop_first()[k] == cur[k + 1]);
        }
        lemma_find_record_none(cur.drop_first(), id);
    }
}

pub proof fn lemma_find_record_hit(cur: Seq<RecordV>, n: int, id: Seq<char>)
    requires
        0 <= n < cur.len(),
        record_id(cur[n]) == id,
        forall|k: int| 0 <= k < n ==> record_id(#[trigger] cur[k]) != id,
    ensures
        find_record(cur, id) == Some(n),
    decreases n,
{
    if n > 0 {
        assert forall|k: int| 0 <= k < n - 1 implies record_id(#[trigger] cur.drop_first()[k]) != id by {
            assert(cur.drop_first()[k] == cur[k + 1]);
        }
        lemma_find_record_hit(cur.drop_first(), n - 1, id);
    }
}

/// The position of the first stored row with id `id`.
pub fn find_stored(cur: &Vec<Record>, id: &String) -> (r: Option<usize>)
    ensures
        r matches Some(i) ==> find_record(record_views(cur@), id@) == Some(i as int) && i < cur@.len(),
        r is None ==> find_record(record_views(cur@), id@) is None,
{
    let ghost cv = record_views(cur@);
    let mut i: usize = 0;
    while i < cur.len()
        invariant
            i <= cur@.len(),
            cv == record_views(cur@),
            forall|k: int| 0 <= k < i ==> record_id(#[trigger] cv[k]) != id@,
        decreases cur.len() - i,
    {
        let rid = text_in(&cur[i].cells, 0);
        if rid.eq(id) {
            proof {
                lemma_find_record_hit(cv, i as int, id@);
            }
            return Some(i);
        }
        i = i + 1;
    }
    proof {
        lemma_find_record_none(cv, id@);
    }
    None
}

/// Whether `id` is the id of one of the items.
pub fn has_item_id(items: &Vec<Json>, id: &String) -> (r: bool)
    ensures
        r == item_ids(json_views(items@)).contains(id@),
{
    let ghost ids = item_ids(json_views(items@));
    let mut i: usize = 0;
    while i < items.len()
        invariant
            i <= items@.len(),
            ids == item_ids(json_views(items@)),
            forall|k: int| 0 <= k < i ==> ids[k] != id@,
        decreases items.len() - i,
    {
        let iid = items[i].str_at("id");
        if iid.eq(id) {
            assert(ids[i as int] == id@);
            return true;
        }
        i = i + 1;
    }
    false
}

fn empty_items() -> (r: Vec<Json>)
    ensures
        r@.len() == 0,
{
    Vec::new()
}

/// The deletes of a collection.
pub fn removed(cur: &Vec<Record>, items: &Vec<Json>) -> (r: Vec<String>)
    ensures
        string_views(r@) == removed_ids(record_views(cur@), json_views(items@)),
{
    let ghost cv = record_views(cur@);
    let ghost iv = json_views(items@);
    let mut out: Vec<String> = Vec::new();
    let mut i: usize = 0;
    while i < cur.len()
        invariant
            i <= cur@.len(),
            cv == record_views(cur@),
            iv == json_views(items@),
            string_views(out@) == removed_ids(cv.take(i as int), iv),
        decreases cur.len() - i,
    {
        let id = text_in(&cur[i].cells, 0);
        let keep = has_item_id(items, &id);
        proof {
            assert(cv.take(i + 1).drop_last() =~= cv.take(i as int));
            assert(cv.take(i + 1).last() == cv[i as int]);
        }
        if !keep {
            out.push(id);
            assert(string_views(out@) =~= removed_ids(cv.take(i + 1), iv));
        } else {
            assert(string_views(out@) =~= removed_ids(cv.take(i + 1), iv));
        }
        i = i + 1;
    }
    assert(cv.take(cur@.len() as int) =~= cv);
    out
}

/// The plan for one collection (see [`table_plan`]).
pub fn plan_table(items: &Vec<Json>, cur: &Vec<Record>, cols: &Vec<Column>, detect: bool) -> (r: TablePlan)
    ensures
        r@ == table_plan(json_views(items@), record_views(cur@), column_views(cols@), detect),
{
    let ghost cv = record_views(cur@);
    let ghost iv = json_views(items@);
    let ghost colv = column_views(cols@);
    let deletes = removed(cur, items);
    let mut ups: Vec<Upsert> = Vec::new();
    let mut i: usize = 0;
    while i < items.len()
        invariant
            i <= items@.len(),
            cv == record_views(cur@),
            iv == json_views(items@),
            colv == column_views(cols@),
            upsert_views(ups@) == written(iv.take(i as int), cv, colv, detect),
        decreases items.len() - i,
    {
        let row = write_row(&items[i], cols, i);
        let mut keep = false;
        if detect {
            let id = items[i].str_at("id");
            match find_stored(cur, &id) {
                Some(ci) => {
                    if ci == i {
                        let sig = sig_row(&cur[ci], cols);
                        keep = same_row(&sig, &row);
                    }
                },
                None => {},
            }
        }
        proof {
            assert(iv.take(i + 1).drop_last() =~= iv.take(i as int));
            assert(iv.take(i + 1)[i as int] == iv[i as int]);
            assert(iv[i as int] == items@[i as int]@);
        }
        if !keep {
            ups.push(Upsert { row, sort_idx: i as i64 });
        }
        assert(upsert_views(ups@) =~= written(iv.take(i + 1), cv, colv, detect));
        i = i + 1;
    }
    assert(iv.take(items@.len() as int) =~= iv);
    TablePlan { deletes, upserts: ups }
}

} // verus!

verus! {

// ---------------------------------------------------------------------
// Tasks: a task is rewritten, together with its subtasks and logs, when it
// is new, moved, or changed in any of its fields, its subtasks (in order)
// or its logs (in any order).

/// A task to write: its row and sort index, and the subtask and log rows
/// that replace the stored ones.
pub struct TaskWrite {
    pub row: Row,
    pub sort_idx: i64,
    /// In document order; the subtask at position `k` is stored with sort
    /// index `k`.
    pub subtasks: Vec<Row>,
    pub logs: Vec<Row>,
}

pub struct TaskWriteV {
    pub row: Seq<CellV>,
    pub sort_idx: i64,
    pub subtasks: Seq<Seq<CellV>>,
    pub logs: Seq<Seq<CellV>>,
}

impl View for TaskWrite {
    type V = TaskWriteV;

    open spec fn view(&self) -> TaskWriteV {
        TaskWriteV {
            row: self.row@,
            sort_idx: self.sort_idx,
            subtasks: row_views(self.subtasks@),
            logs: row_views(self.logs@),
        }
    }
}

pub open spec fn task_write_views(v: Seq<TaskWrite>) -> Seq<TaskWriteV> {
    Seq::new(v.len(), |i: int| v[i]@)
}

/// The stored rows of a task's children, in stored order, as compared.
pub open spec fn child_sigs(ch: Seq<ChildV>, tid: Seq<char>, cols: Seq<ColumnV>) -> Seq<Seq<CellV>>
    decreases ch.len(),
{
    if ch.len() == 0 {
        Seq::empty()
    } else {
        let rest = child_sigs(ch.drop_last(), tid, cols);
        if ch.last().task_id == tid {
            rest.push(sig_cells(ch.last().record, cols))
        } else {
            rest
        }
    }
}

/// The rows written for a task's children.
pub open spec fn child_rows(items: Seq<JsonV>, cols: Seq<ColumnV>) -> Seq<Seq<CellV>> {
    Seq::new(items.len(), |k: int| write_cells(items[k], cols, k))
}

/// Whether task `t` at position `pos` is stored exactly so.
pub open spec fn task_unchanged(cur: SnapshotV, t: JsonV, pos: int) -> bool {
    let id = str_field(t, "id"@);
    match find_record(cur.tasks, id) {
        Some(ci) => {
            &&& ci == pos
            &&& sig_cells(cur.tasks[ci], schema(Table::Tasks)) == write_cells(t, schema(Table::Tasks), pos)
            &&& child_sigs(cur.subtasks, id, schema(Table::Subtasks)) == child_rows(
                list_field(t, "subtasks"@),
                schema(Table::Subtasks),
            )
            &&& child_sigs(cur.logs, id, schema(Table::Logs)).to_multiset() == child_rows(
                list_field(t, "logs"@),
                schema(Table::Logs),
            ).to_multiset()
        },
        None => false,
    }
}

/// What is written for task `t` at position `pos`.
pub open spec fn task_write(t: JsonV, pos: int) -> TaskWriteV {
    TaskWriteV {
        row: write_cells(t, schema(Table::Tasks), pos),
        sort_idx: pos as i64,
        subtasks: child_rows(list_field(t, "subtasks"@), schema(Table::Subtasks)),
        logs: child_rows(list_field(t, "logs"@), schema(Table::Logs)),
    }
}

/// The tasks written: every task that is new, moved or changed.
pub open spec fn task_writes(items: Seq<JsonV>, cur: SnapshotV) -> Seq<TaskWriteV>
    decreases items.len(),
{
    if items.len() == 0 {
        Seq::empty()
    } else {
        let i = items.len() - 1;
        let rest = task_writes(items.drop_last(), cur);
        if task_unchanged(cur, items[i], i) {
            rest
        } else {
            rest.push(task_write(items[i], i))
        }
    }
}

/// The rows of `cur`'s children of task `tid`, as compared.
pub fn child_sig_rows(ch: &Vec<ChildRecord>, tid: &String, cols: &Vec<Column>) -> (r: Vec<Row>)
    ensures
        row_views(r@) == child_sigs(child_views(ch@), tid@, column_views(cols@)),
{
    let ghost cv = child_views(ch@);
    let mut out: Vec<Row> = Vec::new();
    let mut i: usize = 0;
    while i < ch.len()
        invariant
            i <= ch@.len(),
            cv == child_views(ch@),
            row_views(out@) == child_sigs(cv.take(i as int), tid@, column_views(cols@)),
        decreases ch.len() - i,
    {
        proof {
            assert(cv.take(i + 1).drop_last() =~= cv.take(i as int));
            assert(cv.take(i + 1).last() == cv[i as int]);
        }
        if ch[i].task_id.eq(tid) {
            let s = sig_row(&ch[i].record, cols);
            out.push(s);
        }
        assert(row_views(out@) =~= child_sigs(cv.take(i + 1), tid@, column_views(cols@)));
        i = i + 1;
    }
    assert(cv.take(ch@.len() as int) =~= cv);
    out
}

/// The rows written for the children listed in `items`.
pub fn child_write_rows(items: Option<&Vec<Json>>, cols: &Vec<Column>) -> (r: Vec<Row>)
    ensures
        row_views(r@) == child_rows(
            match items {
                Some(v) => json_views(v@),
                None => Seq::empty(),
            },
            column_views(cols@),
        ),
{
    let mut out: Vec<Row> = Vec::new();
    match items {
        Some(v) => {
            let mut k: usize = 0;
            while k < v.len()
                invariant
                    k <= v@.len(),
                    out@.len() == k,
                    forall|m: int|
                        0 <= m < k ==> #[trigger] out@[m]@ == write_cells(v@[m]@, column_views(cols@), m),
                decreases v.len() - k,
            {
                let row = write_row(&v[k], cols, k);
                out.push(row);
                k = k + 1;
            }
            assert(row_views(out@) =~= child_rows(json_views(v@), column_views(cols@)));
        },
        None => {
            assert(row_views(out@) =~= child_rows(Seq::empty(), column_views(cols@)));
        },
    }
    out
}

/// Whether two row sequences are equal.
pub fn same_rows(a: &Vec<Row>, b: &Vec<Row>) -> (r: bool)
    ensures
        r == (row_views(a@) == row_views(b@)),
{
    if a.len() != b.len() {
        assert(row_views(a@).len() != row_views(b@).len());
        return false;
    }
    let mut k: usize = 0;
    while k < a.len()
        invariant
            k <= a@.len(),
            a@.len() == b@.len(),
            forall|m: int| 0 <= m < k ==> #[trigger] row_views(a@)[m] == row_views(b@)[m],
        decreases a.len() - k,
    {
        if !same_row(&a[k], &b[k]) {
            assert(row_views(a@)[k as int] != row_views(b@)[k as int]);
            return false;
        }
        k = k + 1;
    }
    assert(row_views(a@) =~= row_views(b@));
    true
}

/// How many rows of `v` equal `x`.
pub fn count_row(v: &Vec<Row>, x: &Row) -> (r: usize)
    ensures
        r == row_views(v@).to_multiset().count(x@),
{
    broadcast use vstd::multiset::group_multiset_axioms;

    let ghost vv = row_views(v@);
    let mut n: usize = 0;
    let mut i: usize = 0;
    assert(vv.take(0) =~= Seq::<Seq<CellV>>::empty());
    while i < v.len()
        invariant
            i <= v@.len(),
            vv == row_views(v@),
            n == vv.take(i as int).to_multiset().count(x@),
            n <= i,
        decreases v.len() - i,
    {
        assert(vv.take(i + 1) =~= vv.take(i as int).push(vv[i as int]));
        if same_row(&v[i], x) {
            n = n + 1;
        }
        i = i + 1;
    }
    assert(vv.take(v@.len() as int) =~= vv);
    n
}

/// Whether two row sequences hold the same rows, counted with
/// multiplicity, in any order.
pub fn same_row_multiset(a: &Vec<Row>, b: &Vec<Row>) -> (r: bool)
    ensures
        r == (row_views(a@).to_multiset() == row_views(b@).to_multiset()),
{
    broadcast use vstd::multiset::group_multiset_axioms;

    let ghost av = row_views(a@);
    let ghost bv = row_views(b@);
    let mut i: usize = 0;
    while i < a.len()
        invariant
            i <= a@.len(),
            av == row_views(a@),
            bv == row_views(b@),
            forall|k: int| 0 <= k < i ==> av.to_multiset().count(#[trigger] av[k]) == bv.to_multiset().count(av[k]),
        decreases a.len() - i,
    {
        let ca = count_row(a, &a[i]);
        let cb = count_row(b, &a[i]);
        if ca != cb {
            assert(av.to_multiset().count(av[i as int]) != bv.to_multiset().count(av[i as int]));
            return false;
        }
        i = i + 1;
    }
    let mut j: usize = 0;
    while j < b.len()
        invariant
            j <= b@.len(),
            av == row_views(a@),
            bv == row_views(b@),
            forall|k: int| 0 <= k < a@.len() ==> av.to_multiset().count(#[trigger] av[k]) == bv.to_multiset().count(av[k]),
            forall|k: int| 0 <= k < j ==> av.to_multiset().count(#[trigger] bv[k]) == bv.to_multiset().count(bv[k]),
        decreases b.len() - j,
    {
        let ca = count_row(a, &b[j]);
        let cb = count_row(b, &b[j]);
        if ca != cb {
            assert(av.to_multiset().count(bv[j as int]) != bv.to_multiset().count(bv[j as int]));
            return false;
        }
        j = j + 1;
    }
    assert(av.to_multiset() =~= bv.to_multiset()) by {
        assert forall|x: Seq<CellV>| av.to_multiset().count(x) == bv.to_multiset().count(x) by {
            if av.contains(x) {
                let k = choose|k: int| 0 <= k < av.len() && av[k] == x;
                assert(av.to_multiset().count(av[k]) == bv.to_multiset().count(av[k]));
            } else if bv.contains(x) {
                let k = choose|k: int| 0 <= k < bv.len() && bv[k] == x;
                assert(av.to_multiset().count(bv[k]) == bv.to_multiset().count(bv[k]));
            } else {
                assert(av.to_multiset().count(x) == 0);
                assert(bv.to_multiset().count(x) == 0);
            }
        }
    }
    true
}

} // verus!

verus! {

/// Whether task `t` at position `pos` is stored exactly so (see
/// [`task_unchanged`]).
fn is_task_unchanged(
    cur: &Snapshot,
    t: &Json,
    pos: usize,
    task_cols: &Vec<Column>,
    sub_cols: &Vec<Column>,
    log_cols: &Vec<Column>,
) -> (r: bool)
    requires
        column_views(task_cols@) == schema(Table::Tasks),
        column_views(sub_cols@) == schema(Table::Subtasks),
        column_views(log_cols@) == schema(Table::Logs),
    ensures
        r == task_unchanged(cur@, t@, pos as int),
{
    let id = t.str_at("id");
    match find_stored(&cur.tasks, &id) {
        None => false,
        Some(ci) => {
            if ci != pos {
                return false;
            }
            let stored = sig_row(&cur.tasks[ci], task_cols);
            let row = write_row(t, task_cols, pos);
            if !same_row(&stored, &row) {
                return false;
            }
            let stored_subs = child_sig_rows(&cur.subtasks, &id, sub_cols);
            let subs = child_write_rows(t.array_at("subtasks"), sub_cols);
            if !same_rows(&stored_subs, &subs) {
                return false;
            }
            let stored_logs = child_sig_rows(&cur.logs, &id, log_cols);
            let logs = child_write_rows(t.array_at("logs"), log_cols);
            same_row_multiset(&stored_logs, &logs)
        },
    }
}

/// The task writes (see [`task_writes`]).
pub fn plan_tasks(items: &Vec<Json>, cur: &Snapshot) -> (r: Vec<TaskWrite>)
    ensures
        task_write_views(r@) == task_writes(json_views(items@), cur@),
{
    let task_cols = Table::Tasks.columns();
    let sub_cols = Table::Subtasks.columns();
    let log_cols = Table::Logs.columns();
    let ghost iv = json_views(items@);
    let mut out: Vec<TaskWrite> = Vec::new();
    let mut i: usize = 0;
    while i < items.len()
        invariant
            i <= items@.len(),
            iv == json_views(items@),
            column_views(task_cols@) == schema(Table::Tasks),
            column_views(sub_cols@) == schema(Table::Subtasks),
            column_views(log_cols@) == schema(Table::Logs),
            task_write_views(out@) == task_writes(iv.take(i as int), cur@),
        decreases items.len() - i,
    {
        let t = &items[i];
        proof {
            assert(iv.take(i + 1).drop_last() =~= iv.take(i as int));
            assert(iv.take(i + 1)[i as int] == iv[i as int]);
            assert(iv[i as int] == t@);
        }
        if !is_task_unchanged(cur, t, i, &task_cols, &sub_cols, &log_cols) {
            let row = write_row(t, &task_cols, i);
            let subtasks = child_write_rows(t.array_at("subtasks"), &sub_cols);
            let logs = child_write_rows(t.array_at("logs"), &log_cols);
            let w = TaskWrite { row, sort_idx: i as i64, subtasks, logs };
            assert(w@ == task_write(t@, i as int));
            out.push(w);
        }
        assert(task_write_views(out@) =~= task_writes(iv.take(i + 1), cur@));
        i = i + 1;
    }
    assert(iv.take(items@.len() as int) =~= iv);
    out
}

// ---------------------------------------------------------------------
// Note categories and meta values.

/// The note categories written: each string element, with its position.
pub open spec fn note_cat_rows(items: Seq<JsonV>) -> Seq<(Seq<CellV>, i64)>
    decreases items.len(),
{
    if items.len() == 0 {
        Seq::empty()
    } else {
        let i = items.len() - 1;
        let rest = note_cat_rows(items.drop_last());
        match items[i] {
            JsonV::Str(name) => rest.push((seq![CellV::Text(name)], i as i64)),
            _ => rest,
        }
    }
}

pub fn plan_note_cats(items: &Vec<Json>) -> (r: Vec<Upsert>)
    ensures
        upsert_views(r@) == note_cat_rows(json_views(items@)),
{
    let ghost iv = json_views(items@);
    let mut out: Vec<Upsert> = Vec::new();
    let mut i: usize = 0;
    while i < items.len()
        invariant
            i <= items@.len(),
            iv == json_views(items@),
            upsert_views(out@) == note_cat_rows(iv.take(i as int)),
        decreases items.len() - i,
    {
        proof {
            assert(iv.take(i + 1).drop_last() =~= iv.take(i as int));
            assert(iv.take(i + 1)[i as int] == iv[i as int]);
        }
        match &items[i] {
            Json::Str(name) => {
                let mut cells: Vec<Cell> = Vec::new();
                cells.push(Cell::Text(name.clone()));
                let row = Row { cells };
                assert(row@ =~= seq![CellV::Text(name@)]);
                out.push(Upsert { row, sort_idx: i as i64 });
            },
            _ => {},
        }
        assert(upsert_views(out@) =~= note_cat_rows(iv.take(i + 1)));
        i = i + 1;
    }
    assert(iv.take(items@.len() as int) =~= iv);
    out
}

/// How a meta value is stored: a string as itself, anything else as its
/// JSON text.
pub open spec fn meta_text(m: MemberV) -> Seq<char> {
    match m.value {
        JsonV::Str(s) => s,
        _ => m.text,
    }
}

/// The stored text of a meta value (see [`meta_text`]).
pub fn meta_str(m: &Member) -> (r: String)
    ensures
        r@ == meta_text(m@),
{
    match &m.value {
        Json::Str(s) => s.clone(),
        _ => m.text.clone(),
    }
}

/// The meta row written for `key`, if the document has that key.
pub open spec fn meta_row(doc: JsonV, key: Seq<char>) -> Seq<Seq<CellV>> {
    match member(doc, key) {
        Some(m) => seq![seq![CellV::Text(key), CellV::Text(meta_text(m))]],
        None => Seq::empty(),
    }
}

/// The meta rows written: `version`, `seeded`, `prefs` and `exportedAt`,
/// each when the document has it.
pub open spec fn meta_rows(doc: JsonV) -> Seq<Seq<CellV>> {
    meta_row(doc, "version"@) + meta_row(doc, "seeded"@) + meta_row(doc, "prefs"@) + meta_row(
        doc,
        "exportedAt"@,
    )
}

fn push_meta(out: &mut Vec<Row>, doc: &Json, key: &str)
    ensures
        row_views(final(out)@) == row_views(old(out)@) + meta_row(doc@, key@),
{
    match doc.get(key) {
        Some(m) => {
            let mut cells: Vec<Cell> = Vec::new();
            cells.push(Cell::Text(owned(key)));
            cells.push(Cell::Text(meta_str(m)));
            let row = Row { cells };
            assert(row@ =~= seq![CellV::Text(key@), CellV::Text(meta_text(m@))]);
            out.push(row);
            assert(row_views(out@) =~= row_views(old(out)@) + meta_row(doc@, key@));
        },
        None => {
            assert(row_views(out@) =~= row_views(old(out)@) + meta_row(doc@, key@));
        },
    }
}

pub fn plan_meta(doc: &Json) -> (r: Vec<Row>)
    ensures
        row_views(r@) == meta_rows(doc@),
{
    let mut out: Vec<Row> = Vec::new();
    assert(row_views(out@) =~= Seq::<Seq<CellV>>::empty());
    push_meta(&mut out, doc, "version");
    push_meta(&mut out, doc, "seeded");
    push_meta(&mut out, doc, "prefs");
    push_meta(&mut out, doc, "exportedAt");
    assert(meta_rows(doc@) =~= Seq::<Seq<CellV>>::empty() + meta_row(doc@, "version"@) + meta_row(doc@, "seeded"@)
        + meta_row(doc@, "prefs"@) + meta_row(doc@, "exportedAt"@));
    out
}

// ---------------------------------------------------------------------
// The whole save.

/// All the writes of one save, in the order they are carried out.
pub struct SavePlan {
    pub projects: TablePlan,
    pub proj_stages: TablePlan,
    pub clients: TablePlan,
    pub tags: TablePlan,
    pub notes: TablePlan,
    pub smart_lists: TablePlan,
    /// Written after the table is cleared.
    pub note_cats: Vec<Upsert>,
    /// Each deleted with its subtasks and logs.
    pub task_deletes: Vec<String>,
    pub task_writes: Vec<TaskWrite>,
    pub meta: Vec<Row>,
}

pub struct SavePlanV {
    pub projects: TablePlanV,
    pub proj_stages: TablePlanV,
    pub clients: TablePlanV,
    pub tags: TablePlanV,
    pub notes: TablePlanV,
    pub smart_lists: TablePlanV,
    pub note_cats: Seq<(Seq<CellV>, i64)>,
    pub task_deletes: Seq<Seq<char>>,
    pub task_writes: Seq<TaskWriteV>,
    pub meta: Seq<Seq<CellV>>,
}

impl View for SavePlan {
    type V = SavePlanV;

    open spec fn view(&self) -> SavePlanV {
        SavePlanV {
            projects: self.projects@,
            proj_stages: self.proj_stages@,
            clients: self.clients@,
            tags: self.tags@,
            notes: self.notes@,
            smart_lists: self.smart_lists@,
            note_cats: upsert_views(self.note_cats@),
            task_deletes: string_views(self.task_deletes@),
            task_writes: task_write_views(self.task_writes@),
            meta: row_views(self.meta@),
        }
    }
}

/// The writes that store `doc` over what `cur` holds.
pub open spec fn save_plan(doc: JsonV, cur: SnapshotV) -> SavePlanV {
    SavePlanV {
        projects: table_plan(list_field(doc, "projects"@), cur.projects, schema(Table::Projects), true),
        proj_stages: table_plan(
            list_field(doc, "projStages"@),
            cur.proj_stages,
            schema(Table::ProjStages),
            false,
        ),
        clients: table_plan(list_field(doc, "clients"@), cur.clients, schema(Table::Clients), true),
        tags: table_plan(list_field(doc, "tags"@), cur.tags, schema(Table::Tags), true),
        notes: table_plan(list_field(doc, "notes"@), cur.notes, schema(Table::Notes), true),
        smart_lists: table_plan(
            list_field(doc, "smartLists"@),
            cur.smart_lists,
            schema(Table::SmartLists),
            true,
        ),
        note_cats: note_cat_rows(list_field(doc, "noteCats"@)),
        task_deletes: removed_ids(cur.tasks, list_field(doc, "tasks"@)),
        task_writes: task_writes(list_field(doc, "tasks"@), cur),
        meta: meta_rows(doc),
    }
}

fn items_at<'a>(doc: &'a Json, key: &str, none: &'a Vec<Json>) -> (r: &'a Vec<Json>)
    requires
        none@.len() == 0,
    ensures
        json_views(r@) == list_field(doc@, key@),
{
    match doc.array_at(key) {
        Some(v) => v,
        None => {
            assert(json_views(none@) =~= list_field(doc@, key@));
            none
        },
    }
}

/// The writes that store the document `doc` over the stored data `cur`
/// (see [`save_plan`]).
pub fn save_main(doc: &Json, cur: &Snapshot) -> (r: SavePlan)
    ensures
        r@ == save_plan(doc@, cur@),
{
    let none = empty_items();
    let projects = plan_table(items_at(doc, "projects", &none), &cur.projects, &Table::Projects.columns(), true);
    let proj_stages = plan_table(
        items_at(doc, "projStages", &none),
        &cur.proj_stages,
        &Table::ProjStages.columns(),
        false,
    );
    let clients = plan_table(items_at(doc, "clients", &none), &cur.clients, &Table::Clients.columns(), true);
    let tags = plan_table(items_at(doc, "tags", &none), &cur.tags, &Table::Tags.columns(), true);
    let notes = plan_table(items_at(doc, "notes", &none), &cur.notes, &Table::Notes.columns(), true);
    let smart_lists = plan_table(
        items_at(doc, "smartLists", &none),
        &cur.smart_lists,
        &Table::SmartLists.columns(),
        true,
    );
    let note_cats = plan_note_cats(items_at(doc, "noteCats", &none));
    let tasks = items_at(doc, "tasks", &none);
    let task_deletes = removed(&cur.tasks, tasks);
    let task_writes = plan_tasks(tasks, cur);
    let meta = plan_meta(doc);
    SavePlan {
        projects,
        proj_stages,
        clients,
        tags,
        notes,
        smart_lists,
        note_cats,
        task_deletes,
        task_writes,
        meta,
    }
}

} // verus!
