//! What holds across a save and a load.

use vstd::prelude::*;
use crate::json::{JsonV, MemberV, as_bool, at, f64_bits_or_zero, flag_field, int_field, list_field, member, str_field, text_at};
use crate::load::{
    child_outs, default_prefs, doc_entries, has_data, key_index, load_doc, meta_value, note_cats_out, put, rows_out,
    tasks_out, with_meta,
};
use crate::out::{OutFieldV, OutV};
use crate::save::{
    ChildV, SnapshotV, TablePlanV, TaskWriteV, child_rows, child_sigs, find_record, meta_row, meta_rows,
    meta_text, note_cat_rows, record_id, removed_ids, save_plan, table_plan, task_unchanged, task_write,
    task_writes, unchanged, written, item_ids,
};
use crate::schema::{
    CellV, ColKind, ColumnV, RecordV, Table, int_cell, out_cell, out_fields, schema, sig_cell, sig_cells, text_cell,
    write_cell, write_cells,
};

verus! {

/// A store with nothing in it.
pub open spec fn empty_snapshot() -> SnapshotV {
    SnapshotV {
        meta: Seq::empty(),
        projects: Seq::empty(),
        proj_stages: Seq::empty(),
        clients: Seq::empty(),
        tags: Seq::empty(),
        notes: Seq::empty(),
        smart_lists: Seq::empty(),
        note_cats: Seq::empty(),
        tasks: Seq::empty(),
        subtasks: Seq::empty(),
        logs: Seq::empty(),
    }
}

/// Every item of a collection written, in order, with its position as
/// sort index.
pub open spec fn all_written(items: Seq<JsonV>, cols: Seq<ColumnV>) -> Seq<(Seq<CellV>, i64)> {
    Seq::new(items.len(), |i: int| (write_cells(items[i], cols, i), i as i64))
}

pub proof fn lemma_written_into_empty(items: Seq<JsonV>, cols: Seq<ColumnV>, detect: bool)
    ensures
        written(items, Seq::empty(), cols, detect) == all_written(items, cols),
    decreases items.len(),
{
    if items.len() > 0 {
        lemma_written_into_empty(items.drop_last(), cols, detect);
        assert(written(items, Seq::empty(), cols, detect) =~= all_written(items, cols));
    } else {
        assert(written(items, Seq::empty(), cols, detect) =~= all_written(items, cols));
    }
}

pub proof fn lemma_task_writes_into_empty(items: Seq<JsonV>)
    ensures
        task_writes(items, empty_snapshot()) == Seq::new(items.len(), |i: int| task_write(items[i], i)),
    decreases items.len(),
{
    if items.len() > 0 {
        lemma_task_writes_into_empty(items.drop_last());
    }
    assert(task_writes(items, empty_snapshot()) =~= Seq::new(items.len(), |i: int| task_write(items[i], i)));
}

/// Saving into an empty store deletes nothing and writes every item of
/// every collection, at its position, and every task with all its subtasks
/// and logs.
pub proof fn lemma_save_into_empty_store(d: JsonV)
    ensures
        ({
            let p = save_plan(d, empty_snapshot());
            &&& p.projects == (TablePlanV {
                deletes: Seq::empty(),
                upserts: all_written(list_field(d, "projects"@), schema(Table::Projects)),
            })
            &&& p.proj_stages == (TablePlanV {
                deletes: Seq::empty(),
                upserts: all_written(list_field(d, "projStages"@), schema(Table::ProjStages)),
            })
            &&& p.clients == (TablePlanV {
                deletes: Seq::empty(),
                upserts: all_written(list_field(d, "clients"@), schema(Table::Clients)),
            })
            &&& p.tags == (TablePlanV {
                deletes: Seq::empty(),
                upserts: all_written(list_field(d, "tags"@), schema(Table::Tags)),
            })
            &&& p.notes == (TablePlanV {
                deletes: Seq::empty(),
                upserts: all_written(list_field(d, "notes"@), schema(Table::Notes)),
            })
            &&& p.smart_lists == (TablePlanV {
                deletes: Seq::empty(),
                upserts: all_written(list_field(d, "smartLists"@), schema(Table::SmartLists)),
            })
            &&& p.task_deletes == Seq::<Seq<char>>::empty()
            &&& p.task_writes == Seq::new(
                list_field(d, "tasks"@).len(),
                |i: int| task_write(list_field(d, "tasks"@)[i], i),
            )
        }),
{
    let e = empty_snapshot();
    lemma_written_into_empty(list_field(d, "projects"@), schema(Table::Projects), true);
    lemma_written_into_empty(list_field(d, "projStages"@), schema(Table::ProjStages), false);
    lemma_written_into_empty(list_field(d, "clients"@), schema(Table::Clients), true);
    lemma_written_into_empty(list_field(d, "tags"@), schema(Table::Tags), true);
    lemma_written_into_empty(list_field(d, "notes"@), schema(Table::Notes), true);
    lemma_written_into_empty(list_field(d, "smartLists"@), schema(Table::SmartLists), true);
    lemma_task_writes_into_empty(list_field(d, "tasks"@));
    assert(removed_ids(Seq::<RecordV>::empty(), list_field(d, "projects"@)) =~= Seq::<Seq<char>>::empty());
}

} // verus!

verus! {

// ---------------------------------------------------------------------
// What a stored item reads back as.

/// The value a column of item `j` (at position `pos`) reads back as.
pub open spec fn expected_field(j: JsonV, c: ColumnV, pos: int) -> OutV {
    match c.kind {
        ColKind::Text => OutV::Str(str_field(j, c.key)),
        ColKind::Int => OutV::Int(int_field(j, c.key)),
        ColKind::Flag => OutV::Bool(as_bool(at(j, c.key)) == Some(true)),
        ColKind::FlagNumber => OutV::Int(flag_field(j, c.key)),
        ColKind::Real => OutV::Real(f64_bits_or_zero(at(j, c.key))),
        ColKind::JsonList | ColKind::JsonValue => OutV::Json(at(j, c.key)),
        ColKind::Position => OutV::Int(pos as i64),
    }
}

pub open spec fn expected_fields(j: JsonV, cols: Seq<ColumnV>, pos: int) -> Seq<OutFieldV> {
    Seq::new(cols.len(), |k: int| OutFieldV { key: cols[k].key, value: expected_field(j, cols[k], pos) })
}

pub open spec fn expected_objects(items: Seq<JsonV>, cols: Seq<ColumnV>) -> Seq<OutV> {
    Seq::new(items.len(), |i: int| OutV::Obj(expected_fields(items[i], cols, i)))
}

/// A JSON-valued column, when read back, parses to the value written.
pub open spec fn json_back(rec: RecordV, j: JsonV, cols: Seq<ColumnV>) -> bool {
    forall|k: int|
        0 <= k < cols.len() && (cols[k].kind == ColKind::JsonList || cols[k].kind == ColKind::JsonValue)
            ==> rec.json == Some((at(j, #[trigger] cols[k].key), text_at(j, cols[k].key)))
}

/// The rows read back are the rows written, in order, and their JSON text
/// parses back to the values written.
pub open spec fn reads_back(
    recs: Seq<RecordV>,
    ups: Seq<(Seq<CellV>, i64)>,
    items: Seq<JsonV>,
    cols: Seq<ColumnV>,
) -> bool {
    &&& recs.len() == ups.len()
    &&& recs.len() == items.len()
    &&& forall|i: int| 0 <= i < recs.len() ==> (#[trigger] recs[i]).cells == ups[i].0
    &&& forall|i: int| 0 <= i < recs.len() ==> json_back(#[trigger] recs[i], items[i], cols)
}

pub proof fn lemma_out_of_written(rec: RecordV, j: JsonV, cols: Seq<ColumnV>, pos: int)
    requires
        rec.cells == write_cells(j, cols, pos),
        json_back(rec, j, cols),
    ensures
        out_fields(rec, cols) == expected_fields(j, cols, pos),
{
    assert forall|k: int| 0 <= k < cols.len() implies out_cell(rec, k, cols[k]) == expected_field(j, cols[k], pos) by {
        assert(rec.cells[k] == write_cell(j, cols[k], pos));
        if cols[k].kind == ColKind::JsonList || cols[k].kind == ColKind::JsonValue {
            assert(rec.json == Some((at(j, cols[k].key), text_at(j, cols[k].key))));
        }
    }
    assert(out_fields(rec, cols) =~= expected_fields(j, cols, pos));
}

pub proof fn lemma_rows_out_of_written(recs: Seq<RecordV>, items: Seq<JsonV>, cols: Seq<ColumnV>)
    requires
        reads_back(recs, all_written(items, cols), items, cols),
    ensures
        rows_out(recs, cols) == expected_objects(items, cols),
{
    assert forall|i: int| 0 <= i < recs.len() implies rows_out(recs, cols)[i] == expected_objects(items, cols)[i] by {
        assert(recs[i].cells == all_written(items, cols)[i].0);
        assert(json_back(recs[i], items[i], cols));
        lemma_out_of_written(recs[i], items[i], cols, i);
    }
    assert(rows_out(recs, cols) =~= expected_objects(items, cols));
}

// ---------------------------------------------------------------------
// Children of a task.

/// The stored children of task `tid`, in stored order.
pub open spec fn children_of(ch: Seq<ChildV>, tid: Seq<char>) -> Seq<RecordV>
    decreases ch.len(),
{
    if ch.len() == 0 {
        Seq::empty()
    } else {
        let rest = children_of(ch.drop_last(), tid);
        if ch.last().task_id == tid {
            rest.push(ch.last().record)
        } else {
            rest
        }
    }
}

pub proof fn lemma_child_outs(ch: Seq<ChildV>, tid: Seq<char>, cols: Seq<ColumnV>)
    ensures
        child_outs(ch, tid, cols) == rows_out(children_of(ch, tid), cols),
    decreases ch.len(),
{
    if ch.len() > 0 {
        lemma_child_outs(ch.drop_last(), tid, cols);
    }
    assert(child_outs(ch, tid, cols) =~= rows_out(children_of(ch, tid), cols));
}

pub proof fn lemma_child_sigs(ch: Seq<ChildV>, tid: Seq<char>, cols: Seq<ColumnV>)
    ensures
        child_sigs(ch, tid, cols) == Seq::new(
            children_of(ch, tid).len(),
            |k: int| sig_cells(children_of(ch, tid)[k], cols),
        ),
    decreases ch.len(),
{
    if ch.len() > 0 {
        lemma_child_sigs(ch.drop_last(), tid, cols);
    }
    assert(child_sigs(ch, tid, cols) =~= Seq::new(
        children_of(ch, tid).len(),
        |k: int| sig_cells(children_of(ch, tid)[k], cols),
    ));
}

} // verus!

verus! {

// ---------------------------------------------------------------------
// Tasks.

/// The items are in ascending order of their `at` field.
pub open spec fn by_at(ls: Seq<JsonV>) -> bool {
    forall|a: int, b: int|
        0 <= a < b < ls.len() ==> int_field(#[trigger] ls[a], "at"@) <= int_field(#[trigger] ls[b], "at"@)
}

/// `ls` holds the logs `items` (each as often), ordered by `at`: an order
/// in which the store, reading logs ordered by time, can return them.
pub open spec fn log_order(items: Seq<JsonV>, ls: Seq<JsonV>) -> bool {
    &&& ls.to_multiset() == items.to_multiset()
    &&& by_at(ls)
}

/// The object task `t` at position `pos` reads back as, when its logs come
/// back as `logs`.
pub open spec fn expected_task(t: JsonV, pos: int, logs: Seq<JsonV>) -> OutV {
    OutV::Obj(
        expected_fields(t, schema(Table::Tasks), pos) + seq![
            OutFieldV {
                key: "subtasks"@,
                value: OutV::List(expected_objects(list_field(t, "subtasks"@), schema(Table::Subtasks))),
            },
            OutFieldV {
                key: "logs"@,
                value: OutV::List(expected_objects(logs, schema(Table::Logs))),
            },
        ],
    )
}

/// The task rows of a plan, with their sort indexes.
pub open spec fn task_rows(ws: Seq<TaskWriteV>) -> Seq<(Seq<CellV>, i64)> {
    Seq::new(ws.len(), |i: int| (ws[i].row, ws[i].sort_idx))
}

/// The children read back are the rows written, in order.
pub open spec fn children_back(recs: Seq<RecordV>, rows: Seq<Seq<CellV>>) -> bool {
    &&& recs.len() == rows.len()
    &&& forall|k: int| 0 <= k < recs.len() ==> (#[trigger] recs[k]).cells == rows[k]
}

/// The tasks read back are the tasks written, with their subtasks in the
/// order written and the logs of task `i` as the rows of `lo(i)`.
pub open spec fn tasks_read_back(
    after: SnapshotV,
    ws: Seq<TaskWriteV>,
    items: Seq<JsonV>,
    lo: spec_fn(int) -> Seq<JsonV>,
) -> bool {
    &&& reads_back(after.tasks, task_rows(ws), items, schema(Table::Tasks))
    &&& forall|i: int|
        0 <= i < items.len() ==> children_back(
            children_of(after.subtasks, str_field(#[trigger] items[i], "id"@)),
            ws[i].subtasks,
        )
    &&& forall|i: int|
        0 <= i < items.len() ==> children_back(
            children_of(after.logs, str_field(#[trigger] items[i], "id"@)),
            child_rows(lo(i), schema(Table::Logs)),
        )
}

proof fn lemma_children_out(recs: Seq<RecordV>, items: Seq<JsonV>, cols: Seq<ColumnV>)
    requires
        children_back(recs, child_rows(items, cols)),
        forall|k: int| 0 <= k < cols.len() ==> (#[trigger] cols[k]).kind != ColKind::JsonList && cols[k].kind
            != ColKind::JsonValue,
    ensures
        rows_out(recs, cols) == expected_objects(items, cols),
{
    assert forall|i: int| 0 <= i < recs.len() implies json_back(#[trigger] recs[i], items[i], cols) by {}
    assert forall|i: int| 0 <= i < recs.len() implies (#[trigger] recs[i]).cells == all_written(items, cols)[i].0 by {}
    lemma_rows_out_of_written(recs, items, cols);
}

proof fn lemma_tasks_out(after: SnapshotV, items: Seq<JsonV>, lo: spec_fn(int) -> Seq<JsonV>)
    requires
        tasks_read_back(after, Seq::new(items.len(), |i: int| task_write(items[i], i)), items, lo),
    ensures
        tasks_out(after) == Seq::new(items.len(), |i: int| expected_task(items[i], i, lo(i))),
{
    let ws = Seq::new(items.len(), |i: int| task_write(items[i], i));
    assert(schema(Table::Tasks)[0] == crate::schema::cv("id", "id", ColKind::Text));
    assert forall|i: int| 0 <= i < items.len() implies tasks_out(after)[i] == expected_task(items[i], i, lo(i)) by {
        let rec = after.tasks[i];
        let t = items[i];
        assert(rec.cells == task_rows(ws)[i].0);
        assert(json_back(rec, t, schema(Table::Tasks)));
        lemma_out_of_written(rec, t, schema(Table::Tasks), i);
        assert(rec.cells[0] == write_cell(t, schema(Table::Tasks)[0], i));
        assert(record_id(rec) == str_field(t, "id"@));
        lemma_child_outs(after.subtasks, record_id(rec), schema(Table::Subtasks));
        lemma_child_outs(after.logs, record_id(rec), schema(Table::Logs));
        assert(children_back(children_of(after.subtasks, str_field(t, "id"@)), ws[i].subtasks));
        assert(children_back(children_of(after.logs, str_field(t, "id"@)), child_rows(lo(i), schema(Table::Logs))));
        lemma_children_out(
            children_of(after.subtasks, str_field(t, "id"@)),
            list_field(t, "subtasks"@),
            schema(Table::Subtasks),
        );
        lemma_children_out(children_of(after.logs, str_field(t, "id"@)), lo(i), schema(Table::Logs));
    }
    assert(tasks_out(after) =~= Seq::new(items.len(), |i: int| expected_task(items[i], i, lo(i))));
}

// ---------------------------------------------------------------------
// Note categories.

/// The string elements of an array, in order.
pub open spec fn strings_in(items: Seq<JsonV>) -> Seq<Seq<char>>
    decreases items.len(),
{
    if items.len() == 0 {
        Seq::empty()
    } else {
        let rest = strings_in(items.drop_last());
        match items.last() {
            JsonV::Str(s) => rest.push(s),
            _ => rest,
        }
    }
}

proof fn lemma_note_cat_rows(items: Seq<JsonV>)
    ensures
        note_cat_rows(items).len() == strings_in(items).len(),
        forall|i: int|
            0 <= i < note_cat_rows(items).len() ==> (#[trigger] note_cat_rows(items)[i]).0 == seq![
                CellV::Text(strings_in(items)[i]),
            ],
    decreases items.len(),
{
    if items.len() > 0 {
        lemma_note_cat_rows(items.drop_last());
    }
}

} // verus!

verus! {

// ---------------------------------------------------------------------
// Meta values and the members of the document.

/// How a stored meta value parses back: a string was stored as itself and
/// does not parse as JSON; anything else parses back to itself.
pub open spec fn meta_parse(m: MemberV) -> Option<(JsonV, Seq<char>)> {
    match m.value {
        JsonV::Str(_) => None,
        _ => Some((m.value, m.text)),
    }
}

pub open spec fn meta_parse_of(d: JsonV, key: Seq<char>) -> Seq<Option<(JsonV, Seq<char>)>> {
    match member(d, key) {
        Some(m) => seq![meta_parse(m)],
        None => Seq::empty(),
    }
}

/// How each written meta row parses back, in the order written.
pub open spec fn meta_parses(d: JsonV) -> Seq<Option<(JsonV, Seq<char>)>> {
    meta_parse_of(d, "version"@) + meta_parse_of(d, "seeded"@) + meta_parse_of(d, "prefs"@) + meta_parse_of(
        d,
        "exportedAt"@,
    )
}

pub open spec fn meta_record(d: JsonV, key: Seq<char>) -> Seq<RecordV> {
    match member(d, key) {
        Some(m) => seq![
            RecordV { cells: seq![CellV::Text(key), CellV::Text(meta_text(m))], json: meta_parse(m) },
        ],
        None => Seq::empty(),
    }
}

pub open spec fn meta_records(d: JsonV) -> Seq<RecordV> {
    meta_record(d, "version"@) + meta_record(d, "seeded"@) + meta_record(d, "prefs"@) + meta_record(
        d,
        "exportedAt"@,
    )
}

/// The value a meta key reads back as, or the default.
pub open spec fn meta_or(d: JsonV, key: Seq<char>, dflt: OutV) -> OutV {
    match member(d, key) {
        Some(m) => OutV::Json(m.value),
        None => dflt,
    }
}

pub open spec fn opt_entry(d: JsonV, key: Seq<char>) -> Seq<OutFieldV> {
    match member(d, key) {
        Some(m) => seq![OutFieldV { key, value: OutV::Json(m.value) }],
        None => Seq::empty(),
    }
}

/// The collections of the document as they read back.
pub open spec fn expected_collections(d: JsonV, lo: spec_fn(int) -> Seq<JsonV>) -> Seq<OutFieldV> {
    let tasks = list_field(d, "tasks"@);
    seq![
        OutFieldV {
            key: "projects"@,
            value: OutV::List(expected_objects(list_field(d, "projects"@), schema(Table::Projects))),
        },
        OutFieldV {
            key: "projStages"@,
            value: OutV::List(expected_objects(list_field(d, "projStages"@), schema(Table::ProjStages))),
        },
        OutFieldV {
            key: "clients"@,
            value: OutV::List(expected_objects(list_field(d, "clients"@), schema(Table::Clients))),
        },
        OutFieldV {
            key: "tags"@,
            value: OutV::List(expected_objects(list_field(d, "tags"@), schema(Table::Tags))),
        },
        OutFieldV {
            key: "notes"@,
            value: OutV::List(expected_objects(list_field(d, "notes"@), schema(Table::Notes))),
        },
        OutFieldV {
            key: "smartLists"@,
            value: OutV::List(expected_objects(list_field(d, "smartLists"@), schema(Table::SmartLists))),
        },
        OutFieldV {
            key: "noteCats"@,
            value: OutV::List(
                Seq::new(
                    strings_in(list_field(d, "noteCats"@)).len(),
                    |i: int| OutV::Str(strings_in(list_field(d, "noteCats"@))[i]),
                ),
            ),
        },
        OutFieldV {
            key: "tasks"@,
            value: OutV::List(Seq::new(tasks.len(), |i: int| expected_task(tasks[i], i, lo(i)))),
        },
    ]
}

/// The members of the document as it reads back after a save into an empty
/// store: `version` and `seeded` (1 and false when the document has none),
/// `prefs` and `exportedAt` when it has them, every collection, and default
/// preferences when it has none; the logs of task `i` as `lo(i)`.
pub open spec fn expected_entries(d: JsonV, lo: spec_fn(int) -> Seq<JsonV>) -> Seq<OutFieldV> {
    let full = seq![
        OutFieldV { key: "version"@, value: meta_or(d, "version"@, OutV::Int(1)) },
        OutFieldV { key: "seeded"@, value: meta_or(d, "seeded"@, OutV::Bool(false)) },
    ] + opt_entry(d, "prefs"@) + opt_entry(d, "exportedAt"@) + expected_collections(d, lo);
    if member(d, "prefs"@) is Some {
        full
    } else {
        full.push(OutFieldV { key: "prefs"@, value: default_prefs() })
    }
}

/// Whether the document has anything worth loading.
pub open spec fn doc_has_data(d: JsonV) -> bool {
    list_field(d, "tasks"@).len() > 0 || list_field(d, "projects"@).len() > 0 || list_field(d, "clients"@).len()
        > 0 || list_field(d, "tags"@).len() > 0 || list_field(d, "notes"@).len() > 0 || list_field(
        d,
        "smartLists"@,
    ).len() > 0
}

proof fn lemma_key_index_absent(es: Seq<OutFieldV>, k: Seq<char>)
    requires
        forall|i: int| 0 <= i < es.len() ==> (#[trigger] es[i]).key != k,
    ensures
        key_index(es, k) is None,
    decreases es.len(),
{
    if es.len() > 0 {
        assert forall|i: int| 0 <= i < es.len() - 1 implies (#[trigger] es.drop_first()[i]).key != k by {
            assert(es.drop_first()[i] == es[i + 1]);
        }
        lemma_key_index_absent(es.drop_first(), k);
    }
}

proof fn lemma_key_index_at(es: Seq<OutFieldV>, n: int, k: Seq<char>)
    requires
        0 <= n < es.len(),
        es[n].key == k,
        forall|i: int| 0 <= i < n ==> (#[trigger] es[i]).key != k,
    ensures
        key_index(es, k) == Some(n),
    decreases n,
{
    if n > 0 {
        assert forall|i: int| 0 <= i < n - 1 implies (#[trigger] es.drop_first()[i]).key != k by {
            assert(es.drop_first()[i] == es[i + 1]);
        }
        lemma_key_index_at(es.drop_first(), n - 1, k);
    }
}

proof fn lemma_put_new(es: Seq<OutFieldV>, k: Seq<char>, v: OutV)
    requires
        forall|i: int| 0 <= i < es.len() ==> (#[trigger] es[i]).key != k,
    ensures
        put(es, k, v) == es.push(OutFieldV { key: k, value: v }),
{
    lemma_key_index_absent(es, k);
}

proof fn lemma_with_meta_concat(es: Seq<OutFieldV>, a: Seq<RecordV>, b: Seq<RecordV>)
    ensures
        with_meta(es, a + b) == with_meta(with_meta(es, a), b),
    decreases b.len(),
{
    if b.len() == 0 {
        assert(a + b =~= a);
    } else {
        assert((a + b).drop_last() =~= a + b.drop_last());
        assert((a + b).last() == b.last());
        lemma_with_meta_concat(es, a, b.drop_last());
    }
}

proof fn lemma_with_meta_one(es: Seq<OutFieldV>, r: RecordV)
    ensures
        with_meta(es, seq![r]) == put(es, text_cell(r.cells, 0), meta_value(r)),
{
    assert(seq![r].drop_last() =~= Seq::<RecordV>::empty());
    assert(with_meta(es, Seq::<RecordV>::empty()) == es);
    assert(seq![r].last() == r);
}

/// A stored meta record reads back as the member it was written from.
proof fn lemma_meta_value(d: JsonV, key: Seq<char>)
    requires
        member(d, key) is Some,
    ensures
        text_cell(meta_record(d, key)[0].cells, 0) == key,
        meta_value(meta_record(d, key)[0]) == OutV::Json(member(d, key).unwrap().value),
{
}

} // verus!

verus! {

pub open spec fn record_cells(rs: Seq<RecordV>) -> Seq<Seq<CellV>> {
    Seq::new(rs.len(), |i: int| rs[i].cells)
}

/// The meta records are the meta rows a save writes.
pub proof fn lemma_meta_records_written(d: JsonV)
    ensures
        record_cells(meta_records(d)) == meta_rows(d),
        meta_records(d).len() == meta_parses(d).len(),
        forall|i: int| 0 <= i < meta_records(d).len() ==> (#[trigger] meta_records(d)[i]).json == meta_parses(d)[i],
{
    let rv = meta_record(d, "version"@);
    let rs = meta_record(d, "seeded"@);
    let rp = meta_record(d, "prefs"@);
    let re = meta_record(d, "exportedAt"@);
    assert(record_cells(rv) =~= meta_row(d, "version"@));
    assert(record_cells(rs) =~= meta_row(d, "seeded"@));
    assert(record_cells(rp) =~= meta_row(d, "prefs"@));
    assert(record_cells(re) =~= meta_row(d, "exportedAt"@));
    assert(record_cells(rv + rs + rp + re) =~= record_cells(rv) + record_cells(rs) + record_cells(rp) + record_cells(re));
    let pv = meta_parse_of(d, "version"@);
    let ps = meta_parse_of(d, "seeded"@);
    let pp = meta_parse_of(d, "prefs"@);
    let pe = meta_parse_of(d, "exportedAt"@);
    assert(Seq::new(rv.len(), |i: int| rv[i].json) =~= pv);
    assert(Seq::new(rs.len(), |i: int| rs[i].json) =~= ps);
    assert(Seq::new(rp.len(), |i: int| rp[i].json) =~= pp);
    assert(Seq::new(re.len(), |i: int| re[i].json) =~= pe);
    let all = rv + rs + rp + re;
    assert(Seq::new(all.len(), |i: int| all[i].json) =~= Seq::new(rv.len(), |i: int| rv[i].json) + Seq::new(
        rs.len(),
        |i: int| rs[i].json,
    ) + Seq::new(rp.len(), |i: int| rp[i].json) + Seq::new(re.len(), |i: int| re[i].json));
    assert forall|i: int| 0 <= i < all.len() implies (#[trigger] all[i]).json == meta_parses(d)[i] by {
        assert(Seq::new(all.len(), |i: int| all[i].json)[i] == all[i].json);
    }
}

/// The meta records read back into the first members of the document.
proof fn lemma_meta_entries(d: JsonV)
    ensures
        with_meta(
            seq![
                OutFieldV { key: "version"@, value: OutV::Int(1) },
                OutFieldV { key: "seeded"@, value: OutV::Bool(false) },
            ],
            meta_records(d),
        ) == seq![
            OutFieldV { key: "version"@, value: meta_or(d, "version"@, OutV::Int(1)) },
            OutFieldV { key: "seeded"@, value: meta_or(d, "seeded"@, OutV::Bool(false)) },
        ] + opt_entry(d, "prefs"@) + opt_entry(d, "exportedAt"@),
{
    lemma_doc_keys_distinct();
    let e0 = seq![
        OutFieldV { key: "version"@, value: OutV::Int(1) },
        OutFieldV { key: "seeded"@, value: OutV::Bool(false) },
    ];
    let rv = meta_record(d, "version"@);
    let rs = meta_record(d, "seeded"@);
    let rp = meta_record(d, "prefs"@);
    let re = meta_record(d, "exportedAt"@);
    lemma_with_meta_concat(e0, rv + rs + rp, re);
    lemma_with_meta_concat(e0, rv + rs, rp);
    lemma_with_meta_concat(e0, rv, rs);
    let m1 = seq![
        OutFieldV { key: "version"@, value: meta_or(d, "version"@, OutV::Int(1)) },
        OutFieldV { key: "seeded"@, value: OutV::Bool(false) },
    ];
    if member(d, "version"@) is Some {
        lemma_with_meta_one(e0, rv[0]);
        lemma_meta_value(d, "version"@);
        lemma_key_index_at(e0, 0, "version"@);
        assert(rv =~= seq![rv[0]]);
        assert(with_meta(e0, rv) =~= m1);
    } else {
        assert(with_meta(e0, rv) =~= m1);
    }
    let m2 = seq![
        OutFieldV { key: "version"@, value: meta_or(d, "version"@, OutV::Int(1)) },
        OutFieldV { key: "seeded"@, value: meta_or(d, "seeded"@, OutV::Bool(false)) },
    ];
    if member(d, "seeded"@) is Some {
        lemma_with_meta_one(m1, rs[0]);
        lemma_meta_value(d, "seeded"@);
        lemma_key_index_at(m1, 1, "seeded"@);
        assert(rs =~= seq![rs[0]]);
        assert(with_meta(m1, rs) =~= m2);
    } else {
        assert(with_meta(m1, rs) =~= m2);
    }
    let m3 = m2 + opt_entry(d, "prefs"@);
    if member(d, "prefs"@) is Some {
        lemma_with_meta_one(m2, rp[0]);
        lemma_meta_value(d, "prefs"@);
        lemma_put_new(m2, "prefs"@, OutV::Json(member(d, "prefs"@).unwrap().value));
        assert(rp =~= seq![rp[0]]);
        assert(with_meta(m2, rp) =~= m3);
    } else {
        assert(with_meta(m2, rp) =~= m3);
    }
    let m4 = m3 + opt_entry(d, "exportedAt"@);
    if member(d, "exportedAt"@) is Some {
        lemma_with_meta_one(m3, re[0]);
        lemma_meta_value(d, "exportedAt"@);
        assert forall|i: int| 0 <= i < m3.len() implies (#[trigger] m3[i]).key != "exportedAt"@ by {}
        lemma_put_new(m3, "exportedAt"@, OutV::Json(member(d, "exportedAt"@).unwrap().value));
        assert(re =~= seq![re[0]]);
        assert(with_meta(m3, re) =~= m4);
    } else {
        assert(with_meta(m3, re) =~= m4);
    }
}

} // verus!

verus! {

/// The keys of the document's members are distinct.
pub proof fn lemma_doc_keys_distinct()
    ensures
        "version"@ != "seeded"@,
        "version"@ != "prefs"@,
        "version"@ != "exportedAt"@,
        "version"@ != "projects"@,
        "version"@ != "projStages"@,
        "version"@ != "clients"@,
        "version"@ != "tags"@,
        "version"@ != "notes"@,
        "version"@ != "smartLists"@,
        "version"@ != "noteCats"@,
        "version"@ != "tasks"@,
        "seeded"@ != "prefs"@,
        "seeded"@ != "exportedAt"@,
        "seeded"@ != "projects"@,
        "seeded"@ != "projStages"@,
        "seeded"@ != "clients"@,
        "seeded"@ != "tags"@,
        "seeded"@ != "notes"@,
        "seeded"@ != "smartLists"@,
        "seeded"@ != "noteCats"@,
        "seeded"@ != "tasks"@,
        "prefs"@ != "exportedAt"@,
        "prefs"@ != "projects"@,
        "prefs"@ != "projStages"@,
        "prefs"@ != "clients"@,
        "prefs"@ != "tags"@,
        "prefs"@ != "notes"@,
        "prefs"@ != "smartLists"@,
        "prefs"@ != "noteCats"@,
        "prefs"@ != "tasks"@,
        "exportedAt"@ != "projects"@,
        "exportedAt"@ != "projStages"@,
        "exportedAt"@ != "clients"@,
        "exportedAt"@ != "tags"@,
        "exportedAt"@ != "notes"@,
        "exportedAt"@ != "smartLists"@,
        "exportedAt"@ != "noteCats"@,
        "exportedAt"@ != "tasks"@,
        "projects"@ != "projStages"@,
        "projects"@ != "clients"@,
        "projects"@ != "tags"@,
        "projects"@ != "notes"@,
        "projects"@ != "smartLists"@,
        "projects"@ != "noteCats"@,
        "projects"@ != "tasks"@,
        "projStages"@ != "clients"@,
        "projStages"@ != "tags"@,
        "projStages"@ != "notes"@,
        "projStages"@ != "smartLists"@,
        "projStages"@ != "noteCats"@,
        "projStages"@ != "tasks"@,
        "clients"@ != "tags"@,
        "clients"@ != "notes"@,
        "clients"@ != "smartLists"@,
        "clients"@ != "noteCats"@,
        "clients"@ != "tasks"@,
        "tags"@ != "notes"@,
        "tags"@ != "smartLists"@,
        "tags"@ != "noteCats"@,
        "tags"@ != "tasks"@,
        "notes"@ != "smartLists"@,
        "notes"@ != "noteCats"@,
        "notes"@ != "tasks"@,
        "smartLists"@ != "noteCats"@,
        "smartLists"@ != "tasks"@,
        "noteCats"@ != "tasks"@,
{
    reveal_strlit("version");
    reveal_strlit("seeded");
    reveal_strlit("prefs");
    reveal_strlit("exportedAt");
    reveal_strlit("projects");
    reveal_strlit("projStages");
    reveal_strlit("clients");
    reveal_strlit("tags");
    reveal_strlit("notes");
    reveal_strlit("smartLists");
    reveal_strlit("noteCats");
    reveal_strlit("tasks");
    assert("version"@.len() == 7);
    assert("seeded"@.len() == 6);
    assert("prefs"@.len() == 5);
    assert("exportedAt"@.len() == 10);
    assert("projects"@.len() == 8);
    assert("projStages"@.len() == 10);
    assert("clients"@.len() == 7);
    assert("tags"@.len() == 4);
    assert("notes"@.len() == 5);
    assert("smartLists"@.len() == 10);
    assert("noteCats"@.len() == 8);
    assert("tasks"@.len() == 5);
    assert("version"@[0] != "clients"@[0]);
    assert("prefs"@[0] != "notes"@[0]);
    assert("prefs"@[0] != "tasks"@[0]);
    assert("exportedAt"@[0] != "projStages"@[0]);
    assert("exportedAt"@[0] != "smartLists"@[0]);
    assert("projects"@[0] != "noteCats"@[0]);
    assert("projStages"@[0] != "smartLists"@[0]);
    assert("notes"@[0] != "tasks"@[0]);
}

} // verus!

verus! {

/// The objects the note categories read back as.
proof fn lemma_note_cats_out(after: Seq<RecordV>, items: Seq<JsonV>)
    requires
        after.len() == note_cat_rows(items).len(),
        forall|i: int| 0 <= i < after.len() ==> (#[trigger] after[i]).cells == note_cat_rows(items)[i].0,
    ensures
        note_cats_out(after) == Seq::new(strings_in(items).len(), |i: int| OutV::Str(strings_in(items)[i])),
{
    lemma_note_cat_rows(items);
    assert forall|i: int| 0 <= i < after.len() implies note_cats_out(after)[i] == OutV::Str(strings_in(items)[i]) by {
        assert(after[i].cells == note_cat_rows(items)[i].0);
    }
    assert(note_cats_out(after) =~= Seq::new(strings_in(items).len(), |i: int| OutV::Str(strings_in(items)[i])));
}



proof fn lemma_puts(e1: Seq<OutFieldV>, v0: OutV, v1: OutV, v2: OutV, v3: OutV, v4: OutV, v5: OutV, v6: OutV, v7: OutV)
    requires
        forall|i: int| 0 <= i < e1.len() ==> (#[trigger] e1[i]).key == "version"@ || e1[i].key == "seeded"@
            || e1[i].key == "prefs"@ || e1[i].key == "exportedAt"@,
    ensures
        put(put(put(put(put(put(put(put(e1, "projects"@, v0), "projStages"@, v1), "clients"@, v2), "tags"@, v3),
            "notes"@, v4), "smartLists"@, v5), "noteCats"@, v6), "tasks"@, v7) == e1 + seq![
            OutFieldV { key: "projects"@, value: v0 },
            OutFieldV { key: "projStages"@, value: v1 },
            OutFieldV { key: "clients"@, value: v2 },
            OutFieldV { key: "tags"@, value: v3 },
            OutFieldV { key: "notes"@, value: v4 },
            OutFieldV { key: "smartLists"@, value: v5 },
            OutFieldV { key: "noteCats"@, value: v6 },
            OutFieldV { key: "tasks"@, value: v7 },
        ],
{
    lemma_doc_keys_distinct();
    let e2 = e1.push(OutFieldV { key: "projects"@, value: v0 });
    lemma_put_new(e1, "projects"@, v0);
    let e3 = e2.push(OutFieldV { key: "projStages"@, value: v1 });
    lemma_put_new(e2, "projStages"@, v1);
    let e4 = e3.push(OutFieldV { key: "clients"@, value: v2 });
    lemma_put_new(e3, "clients"@, v2);
    let e5 = e4.push(OutFieldV { key: "tags"@, value: v3 });
    lemma_put_new(e4, "tags"@, v3);
    let e6 = e5.push(OutFieldV { key: "notes"@, value: v4 });
    lemma_put_new(e5, "notes"@, v4);
    let e7 = e6.push(OutFieldV { key: "smartLists"@, value: v5 });
    lemma_put_new(e6, "smartLists"@, v5);
    let e8 = e7.push(OutFieldV { key: "noteCats"@, value: v6 });
    lemma_put_new(e7, "noteCats"@, v6);
    lemma_put_new(e8, "tasks"@, v7);
    assert(e8.push(OutFieldV { key: "tasks"@, value: v7 }) =~= e1 + seq![
        OutFieldV { key: "projects"@, value: v0 },
        OutFieldV { key: "projStages"@, value: v1 },
        OutFieldV { key: "clients"@, value: v2 },
        OutFieldV { key: "tags"@, value: v3 },
        OutFieldV { key: "notes"@, value: v4 },
        OutFieldV { key: "smartLists"@, value: v5 },
        OutFieldV { key: "noteCats"@, value: v6 },
        OutFieldV { key: "tasks"@, value: v7 },
    ]);
}

proof fn lemma_prefs_default(e: Seq<OutFieldV>, has: bool)
    requires
        has ==> exists|i: int| 0 <= i < e.len() && (#[trigger] e[i]).key == "prefs"@,
        has || forall|i: int| 0 <= i < e.len() ==> (#[trigger] e[i]).key != "prefs"@,
    ensures
        (if key_index(e, "prefs"@) is Some {
            e
        } else {
            put(e, "prefs"@, default_prefs())
        }) == (if has {
            e
        } else {
            e.push(OutFieldV { key: "prefs"@, value: default_prefs() })
        }),
{
    if has {
        let i = choose|i: int| 0 <= i < e.len() && (#[trigger] e[i]).key == "prefs"@;
        if key_index(e, "prefs"@) is None {
            lemma_key_index_none_means_absent(e, "prefs"@, i);
        }
    } else {
        lemma_key_index_absent(e, "prefs"@);
        lemma_put_new(e, "prefs"@, default_prefs());
    }
}

proof fn lemma_key_index_none_means_absent(es: Seq<OutFieldV>, k: Seq<char>, i: int)
    requires
        0 <= i < es.len(),
        es[i].key == k,
    ensures
        key_index(es, k) is Some,
    decreases es.len(),
{
    if es[0].key != k {
        assert(es.drop_first()[i - 1] == es[i]);
        lemma_key_index_none_means_absent(es.drop_first(), k, i - 1);
    }
}

/// Setting the collections after the meta members adds them in order, and
/// default preferences come last when the document has none.
proof fn lemma_collection_puts(d: JsonV, after: SnapshotV, lo: spec_fn(int) -> Seq<JsonV>)
    requires
        with_meta(
            seq![
                OutFieldV { key: "version"@, value: OutV::Int(1) },
                OutFieldV { key: "seeded"@, value: OutV::Bool(false) },
            ],
            after.meta,
        ) == seq![
            OutFieldV { key: "version"@, value: meta_or(d, "version"@, OutV::Int(1)) },
            OutFieldV { key: "seeded"@, value: meta_or(d, "seeded"@, OutV::Bool(false)) },
        ] + opt_entry(d, "prefs"@) + opt_entry(d, "exportedAt"@),
        expected_collections(d, lo) == seq![
            OutFieldV { key: "projects"@, value: OutV::List(rows_out(after.projects, schema(Table::Projects))) },
            OutFieldV {
                key: "projStages"@,
                value: OutV::List(rows_out(after.proj_stages, schema(Table::ProjStages))),
            },
            OutFieldV { key: "clients"@, value: OutV::List(rows_out(after.clients, schema(Table::Clients))) },
            OutFieldV { key: "tags"@, value: OutV::List(rows_out(after.tags, schema(Table::Tags))) },
            OutFieldV { key: "notes"@, value: OutV::List(rows_out(after.notes, schema(Table::Notes))) },
            OutFieldV {
                key: "smartLists"@,
                value: OutV::List(rows_out(after.smart_lists, schema(Table::SmartLists))),
            },
            OutFieldV { key: "noteCats"@, value: OutV::List(note_cats_out(after.note_cats)) },
            OutFieldV { key: "tasks"@, value: OutV::List(tasks_out(after)) },
        ],
    ensures
        doc_entries(after) == expected_entries(d, lo),
{
    let e1 = seq![
        OutFieldV { key: "version"@, value: meta_or(d, "version"@, OutV::Int(1)) },
        OutFieldV { key: "seeded"@, value: meta_or(d, "seeded"@, OutV::Bool(false)) },
    ] + opt_entry(d, "prefs"@) + opt_entry(d, "exportedAt"@);
    let cs = expected_collections(d, lo);
    lemma_doc_keys_distinct();
    assert(forall|i: int| 0 <= i < e1.len() ==> (#[trigger] e1[i]).key == "version"@ || e1[i].key == "seeded"@
        || e1[i].key == "prefs"@ || e1[i].key == "exportedAt"@);
    if member(d, "prefs"@) is Some {
        assert((e1 + cs)[2].key == "prefs"@);
    } else {
        assert forall|i: int| 0 <= i < (e1 + cs).len() implies (#[trigger] (e1 + cs)[i]).key != "prefs"@ by {
            if i >= e1.len() {
                assert((e1 + cs)[i] == cs[i - e1.len()]);
            } else {
                assert((e1 + cs)[i] == e1[i]);
            }
        }
    }
    lemma_puts(e1, cs[0].value, cs[1].value, cs[2].value, cs[3].value, cs[4].value, cs[5].value, cs[6].value, cs[7].value);
    assert(e1 + seq![
        OutFieldV { key: "projects"@, value: cs[0].value },
        OutFieldV { key: "projStages"@, value: cs[1].value },
        OutFieldV { key: "clients"@, value: cs[2].value },
        OutFieldV { key: "tags"@, value: cs[3].value },
        OutFieldV { key: "notes"@, value: cs[4].value },
        OutFieldV { key: "smartLists"@, value: cs[5].value },
        OutFieldV { key: "noteCats"@, value: cs[6].value },
        OutFieldV { key: "tasks"@, value: cs[7].value },
    ] =~= e1 + cs);
    lemma_prefs_default(e1 + cs, member(d, "prefs"@) is Some);
    assert(doc_entries(after) =~= expected_entries(d, lo));
}

/// The store holds what saving `d` into an empty store wrote: each
/// table's rows in sort-index order (the order they were written in), a
/// task's subtasks in the order written, the logs of task `i` as the rows
/// of `lo(i)`, which is that task's logs ordered by `at` (the store reads
/// logs ordered by time), the meta rows in the order written; the JSON
/// text of a stored value parses back to that value, and a string stored
/// as a meta value does not parse as JSON.
pub open spec fn holds_saved(d: JsonV, after: SnapshotV, lo: spec_fn(int) -> Seq<JsonV>) -> bool {
    let p = save_plan(d, empty_snapshot());
    &&& reads_back(after.projects, p.projects.upserts, list_field(d, "projects"@), schema(Table::Projects))
    &&& reads_back(
        after.proj_stages,
        p.proj_stages.upserts,
        list_field(d, "projStages"@),
        schema(Table::ProjStages),
    )
    &&& reads_back(after.clients, p.clients.upserts, list_field(d, "clients"@), schema(Table::Clients))
    &&& reads_back(after.tags, p.tags.upserts, list_field(d, "tags"@), schema(Table::Tags))
    &&& reads_back(after.notes, p.notes.upserts, list_field(d, "notes"@), schema(Table::Notes))
    &&& reads_back(
        after.smart_lists,
        p.smart_lists.upserts,
        list_field(d, "smartLists"@),
        schema(Table::SmartLists),
    )
    &&& after.note_cats.len() == p.note_cats.len()
    &&& forall|i: int| 0 <= i < after.note_cats.len() ==> (#[trigger] after.note_cats[i]).cells == p.note_cats[i].0
    &&& tasks_read_back(after, p.task_writes, list_field(d, "tasks"@), lo)
    &&& forall|i: int|
        0 <= i < list_field(d, "tasks"@).len() ==> log_order(
            list_field(#[trigger] list_field(d, "tasks"@)[i], "logs"@),
            lo(i),
        )
    &&& record_cells(after.meta) == p.meta
    &&& forall|i: int| 0 <= i < after.meta.len() ==> (#[trigger] after.meta[i]).json == meta_parses(d)[i]
}

/// Saving a document into an empty store and loading it back gives the
/// document back.
///
/// The store is taken to return what the save wrote (see [`holds_saved`]).
/// Then the load gives: every project, stage, client, tag, note, smart list
/// and task of the document, in document order, each with the fields its
/// table keeps (a string field as its string or `""`, a number as its
/// `i64` or 0, a flag as a boolean, a JSON field as its value, a stage's
/// `ord` as its position); every task with its subtasks in document order
/// and its logs ordered by `at` (as the store returned them, `lo(i)` for
/// task `i`, which holds exactly the task's logs); the
/// string note categories; `version`, `seeded`, `prefs` and `exportedAt`
/// as stored, with `version` 1, `seeded` false and default preferences
/// when absent. When the document has no task, project, client, tag, note
/// or smart list, the load gives nothing.
pub proof fn law_save_then_load(d: JsonV, after: SnapshotV, lo: spec_fn(int) -> Seq<JsonV>)
    requires
        holds_saved(d, after, lo),
    ensures
        load_doc(after) == (if doc_has_data(d) {
            Some(OutV::Obj(expected_entries(d, lo)))
        } else {
            None
        }),
        forall|i: int|
            0 <= i < list_field(d, "tasks"@).len() ==> log_order(
                list_field(#[trigger] list_field(d, "tasks"@)[i], "logs"@),
                lo(i),
            ),
{
    let p = save_plan(d, empty_snapshot());
    lemma_save_into_empty_store(d);
    lemma_doc_keys_distinct();
    lemma_meta_records_written(d);
    // The meta rows read back are the meta records.
    assert(after.meta.len() == record_cells(after.meta).len());
    assert forall|i: int| 0 <= i < after.meta.len() implies after.meta[i] == meta_records(d)[i] by {
        assert(record_cells(after.meta)[i] == after.meta[i].cells);
        assert(record_cells(meta_records(d))[i] == meta_records(d)[i].cells);
    }
    assert(after.meta =~= meta_records(d));
    lemma_meta_entries(d);

    lemma_rows_out_of_written(after.projects, list_field(d, "projects"@), schema(Table::Projects));
    lemma_rows_out_of_written(after.proj_stages, list_field(d, "projStages"@), schema(Table::ProjStages));
    lemma_rows_out_of_written(after.clients, list_field(d, "clients"@), schema(Table::Clients));
    lemma_rows_out_of_written(after.tags, list_field(d, "tags"@), schema(Table::Tags));
    lemma_rows_out_of_written(after.notes, list_field(d, "notes"@), schema(Table::Notes));
    lemma_rows_out_of_written(after.smart_lists, list_field(d, "smartLists"@), schema(Table::SmartLists));
    lemma_note_cats_out(after.note_cats, list_field(d, "noteCats"@));
    lemma_tasks_out(after, list_field(d, "tasks"@), lo);
    assert(expected_collections(d, lo) =~= seq![
        OutFieldV { key: "projects"@, value: OutV::List(rows_out(after.projects, schema(Table::Projects))) },
        OutFieldV {
            key: "projStages"@,
            value: OutV::List(rows_out(after.proj_stages, schema(Table::ProjStages))),
        },
        OutFieldV { key: "clients"@, value: OutV::List(rows_out(after.clients, schema(Table::Clients))) },
        OutFieldV { key: "tags"@, value: OutV::List(rows_out(after.tags, schema(Table::Tags))) },
        OutFieldV { key: "notes"@, value: OutV::List(rows_out(after.notes, schema(Table::Notes))) },
        OutFieldV {
            key: "smartLists"@,
            value: OutV::List(rows_out(after.smart_lists, schema(Table::SmartLists))),
        },
        OutFieldV { key: "noteCats"@, value: OutV::List(note_cats_out(after.note_cats)) },
        OutFieldV { key: "tasks"@, value: OutV::List(tasks_out(after)) },
    ]);

    lemma_collection_puts(d, after, lo);
    assert(doc_entries(after) =~= expected_entries(d, lo));
}

} // verus!

verus! {

// ---------------------------------------------------------------------
// Saving again what is stored.

/// No two items share an id.
pub open spec fn ids_distinct(items: Seq<JsonV>) -> bool {
    forall|i: int, j: int|
        0 <= i < items.len() && 0 <= j < items.len() && i != j ==> str_field(#[trigger] items[i], "id"@)
            != str_field(#[trigger] items[j], "id"@)
}

proof fn lemma_record_id_written(rec: RecordV, j: JsonV, cols: Seq<ColumnV>, pos: int)
    requires
        rec.cells == write_cells(j, cols, pos),
        cols.len() > 0,
        cols[0] == crate::schema::cv("id", "id", ColKind::Text),
    ensures
        record_id(rec) == str_field(j, "id"@),
{
    assert(rec.cells[0] == write_cell(j, cols[0], pos));
}

proof fn lemma_no_removals(recs: Seq<RecordV>, items: Seq<JsonV>)
    requires
        forall|i: int| 0 <= i < recs.len() ==> item_ids(items).contains(record_id(#[trigger] recs[i])),
    ensures
        removed_ids(recs, items) == Seq::<Seq<char>>::empty(),
    decreases recs.len(),
{
    if recs.len() > 0 {
        assert(item_ids(items).contains(record_id(recs[recs.len() - 1])));
        lemma_no_removals(recs.drop_last(), items);
    }
}

/// A row written from item `j` compares, when read back, equal to the row
/// the item writes: a save finds no change in what it wrote itself.
pub proof fn law_written_rows_compare_equal(rec: RecordV, j: JsonV, cols: Seq<ColumnV>, pos: int)
    requires
        rec.cells == write_cells(j, cols, pos),
        json_back(rec, j, cols),
    ensures
        sig_cells(rec, cols) == write_cells(j, cols, pos),
{
    assert forall|k: int| 0 <= k < cols.len() implies sig_cell(rec, k, cols[k]) == write_cell(j, cols[k], pos) by {
        assert(rec.cells[k] == write_cell(j, cols[k], pos));
        if cols[k].kind == ColKind::JsonList || cols[k].kind == ColKind::JsonValue {
            assert(rec.json == Some((at(j, cols[k].key), text_at(j, cols[k].key))));
        }
    }
    assert(sig_cells(rec, cols) =~= write_cells(j, cols, pos));
}

/// Stored rows of distinct ids are found at their own position.
proof fn lemma_find_own(recs: Seq<RecordV>, items: Seq<JsonV>, i: int)
    requires
        recs.len() == items.len(),
        forall|k: int| 0 <= k < recs.len() ==> record_id(#[trigger] recs[k]) == str_field(items[k], "id"@),
        ids_distinct(items),
        0 <= i < items.len(),
    ensures
        find_record(recs, str_field(items[i], "id"@)) == Some(i),
{
    assert forall|k: int| 0 <= k < i implies record_id(#[trigger] recs[k]) != str_field(items[i], "id"@) by {
        assert(record_id(recs[k]) == str_field(items[k], "id"@));
    }
    crate::save::lemma_find_record_hit(recs, i, str_field(items[i], "id"@));
}

/// A table holds the items, in their order, each row comparing equal to
/// the row its item writes.
pub open spec fn table_saved(recs: Seq<RecordV>, items: Seq<JsonV>, cols: Seq<ColumnV>) -> bool {
    &&& recs.len() == items.len()
    &&& forall|i: int| 0 <= i < recs.len() ==> record_id(#[trigger] recs[i]) == str_field(items[i], "id"@)
    &&& forall|i: int| 0 <= i < recs.len() ==> sig_cells(#[trigger] recs[i], cols) == write_cells(items[i], cols, i)
}

/// The tasks table holds the tasks so, each task's subtasks compare equal
/// to its subtasks in order, and its logs to its logs in some order.
pub open spec fn tasks_saved(after: SnapshotV, items: Seq<JsonV>) -> bool {
    &&& table_saved(after.tasks, items, schema(Table::Tasks))
    &&& forall|i: int|
        0 <= i < items.len() ==> child_sigs(after.subtasks, str_field(#[trigger] items[i], "id"@), schema(Table::Subtasks))
            == child_rows(list_field(items[i], "subtasks"@), schema(Table::Subtasks))
    &&& forall|i: int|
        0 <= i < items.len() ==> child_sigs(after.logs, str_field(#[trigger] items[i], "id"@), schema(Table::Logs)).to_multiset()
            == child_rows(list_field(items[i], "logs"@), schema(Table::Logs)).to_multiset()
}

/// The state a save of `d` leaves behind, whatever was stored before: in
/// every table the document's items in document order (rows the save
/// wrote carry their position as sort index, rows it left alone were found
/// at that position), each comparing equal to what it writes (rows written
/// do so by [`law_written_rows_compare_equal`], rows left alone because
/// that is why they were left alone), and nothing else.
pub open spec fn saved_state(d: JsonV, after: SnapshotV) -> bool {
    &&& table_saved(after.projects, list_field(d, "projects"@), schema(Table::Projects))
    &&& table_saved(after.proj_stages, list_field(d, "projStages"@), schema(Table::ProjStages))
    &&& table_saved(after.clients, list_field(d, "clients"@), schema(Table::Clients))
    &&& table_saved(after.tags, list_field(d, "tags"@), schema(Table::Tags))
    &&& table_saved(after.notes, list_field(d, "notes"@), schema(Table::Notes))
    &&& table_saved(after.smart_lists, list_field(d, "smartLists"@), schema(Table::SmartLists))
    &&& tasks_saved(after, list_field(d, "tasks"@))
}

proof fn lemma_table_again(items: Seq<JsonV>, all: Seq<JsonV>, recs: Seq<RecordV>, cols: Seq<ColumnV>)
    requires
        items.len() <= all.len(),
        forall|i: int| 0 <= i < items.len() ==> #[trigger] items[i] == all[i],
        table_saved(recs, all, cols),
        ids_distinct(all),
    ensures
        written(items, recs, cols, true) == Seq::<(Seq<CellV>, i64)>::empty(),
    decreases items.len(),
{
    if items.len() > 0 {
        let i = items.len() - 1;
        assert forall|k: int| 0 <= k < items.len() - 1 implies #[trigger] items.drop_last()[k] == all[k] by {}
        lemma_table_again(items.drop_last(), all, recs, cols);
        lemma_find_own(recs, all, i);
        assert(sig_cells(recs[i], cols) == write_cells(all[i], cols, i));
    }
}

proof fn lemma_ids_kept(recs: Seq<RecordV>, items: Seq<JsonV>, cols: Seq<ColumnV>)
    requires
        table_saved(recs, items, cols),
    ensures
        removed_ids(recs, items) == Seq::<Seq<char>>::empty(),
{
    assert forall|k: int| 0 <= k < recs.len() implies item_ids(items).contains(record_id(#[trigger] recs[k])) by {
        assert(item_ids(items)[k] == str_field(items[k], "id"@));
    }
    lemma_no_removals(recs, items);
}

proof fn lemma_tasks_again(items: Seq<JsonV>, all: Seq<JsonV>, after: SnapshotV)
    requires
        items.len() <= all.len(),
        forall|i: int| 0 <= i < items.len() ==> #[trigger] items[i] == all[i],
        tasks_saved(after, all),
        ids_distinct(all),
    ensures
        task_writes(items, after) == Seq::<TaskWriteV>::empty(),
    decreases items.len(),
{
    if items.len() > 0 {
        let i = items.len() - 1;
        assert forall|k: int| 0 <= k < items.len() - 1 implies #[trigger] items.drop_last()[k] == all[k] by {}
        lemma_tasks_again(items.drop_last(), all, after);
        lemma_find_own(after.tasks, all, i);
        assert(sig_cells(after.tasks[i], schema(Table::Tasks)) == write_cells(all[i], schema(Table::Tasks), i));
        assert(task_unchanged(after, items[i], i));
    }
}

/// Saving again over the state a save of the same document left changes
/// nothing.
///
/// When the store holds what a save of `d` leaves (see [`saved_state`]),
/// and no two items of a collection share an id, saving `d` again deletes
/// nothing and writes no project, client, tag, note, smart list or task
/// (so no subtask or log either); it rewrites, as every save does, the
/// project stages, the note categories and the meta values.
pub proof fn law_save_again_changes_nothing(d: JsonV, after: SnapshotV)
    requires
        saved_state(d, after),
        ids_distinct(list_field(d, "projects"@)),
        ids_distinct(list_field(d, "clients"@)),
        ids_distinct(list_field(d, "tags"@)),
        ids_distinct(list_field(d, "notes"@)),
        ids_distinct(list_field(d, "smartLists"@)),
        ids_distinct(list_field(d, "tasks"@)),
    ensures
        ({
            let p = save_plan(d, after);
            &&& p.projects == (TablePlanV { deletes: Seq::empty(), upserts: Seq::empty() })
            &&& p.proj_stages == (TablePlanV {
                deletes: Seq::empty(),
                upserts: all_written(list_field(d, "projStages"@), schema(Table::ProjStages)),
            })
            &&& p.clients == (TablePlanV { deletes: Seq::empty(), upserts: Seq::empty() })
            &&& p.tags == (TablePlanV { deletes: Seq::empty(), upserts: Seq::empty() })
            &&& p.notes == (TablePlanV { deletes: Seq::empty(), upserts: Seq::empty() })
            &&& p.smart_lists == (TablePlanV { deletes: Seq::empty(), upserts: Seq::empty() })
            &&& p.note_cats == note_cat_rows(list_field(d, "noteCats"@))
            &&& p.task_deletes == Seq::<Seq<char>>::empty()
            &&& p.task_writes == Seq::<TaskWriteV>::empty()
            &&& p.meta == meta_rows(d)
        }),
{
    let ps = list_field(d, "projects"@);
    lemma_table_again(ps, ps, after.projects, schema(Table::Projects));
    lemma_ids_kept(after.projects, ps, schema(Table::Projects));
    let cs = list_field(d, "clients"@);
    lemma_table_again(cs, cs, after.clients, schema(Table::Clients));
    lemma_ids_kept(after.clients, cs, schema(Table::Clients));
    let gs = list_field(d, "tags"@);
    lemma_table_again(gs, gs, after.tags, schema(Table::Tags));
    lemma_ids_kept(after.tags, gs, schema(Table::Tags));
    let ns = list_field(d, "notes"@);
    lemma_table_again(ns, ns, after.notes, schema(Table::Notes));
    lemma_ids_kept(after.notes, ns, schema(Table::Notes));
    let ss = list_field(d, "smartLists"@);
    lemma_table_again(ss, ss, after.smart_lists, schema(Table::SmartLists));
    lemma_ids_kept(after.smart_lists, ss, schema(Table::SmartLists));
    let stages = list_field(d, "projStages"@);
    lemma_ids_kept(after.proj_stages, stages, schema(Table::ProjStages));
    lemma_written_without_detection(stages, after.proj_stages, schema(Table::ProjStages));
    let tasks = list_field(d, "tasks"@);
    lemma_ids_kept(after.tasks, tasks, schema(Table::Tasks));
    lemma_tasks_again(tasks, tasks, after);
}

/// Without change detection every item is written.
pub proof fn lemma_written_without_detection(items: Seq<JsonV>, cur: Seq<RecordV>, cols: Seq<ColumnV>)
    ensures
        written(items, cur, cols, false) == all_written(items, cols),
    decreases items.len(),
{
    if items.len() > 0 {
        lemma_written_without_detection(items.drop_last(), cur, cols);
    }
    assert(written(items, cur, cols, false) =~= all_written(items, cols));
}

// ---------------------------------------------------------------------
// Rows of children compared in any order.

pub open spec fn no_position(cols: Seq<ColumnV>) -> bool {
    forall|k: int| 0 <= k < cols.len() ==> (#[trigger] cols[k]).kind != ColKind::Position
}

proof fn lemma_write_anywhere(j: JsonV, cols: Seq<ColumnV>, p: int, q: int)
    requires
        no_position(cols),
    ensures
        write_cells(j, cols, p) == write_cells(j, cols, q),
{
    assert forall|k: int| 0 <= k < cols.len() implies write_cells(j, cols, p)[k] == write_cells(j, cols, q)[k] by {
        assert(cols[k].kind != ColKind::Position);
    }
    assert(write_cells(j, cols, p) =~= write_cells(j, cols, q));
}

/// Items that are the same up to order write the same rows up to order.
pub proof fn lemma_rows_up_to_order(a: Seq<JsonV>, b: Seq<JsonV>, cols: Seq<ColumnV>)
    requires
        a.to_multiset() == b.to_multiset(),
        no_position(cols),
    ensures
        child_rows(a, cols).to_multiset() == child_rows(b, cols).to_multiset(),
    decreases a.len(),
{
    broadcast use vstd::seq_lib::group_to_multiset_ensures, vstd::multiset::group_multiset_axioms;

    if a.len() == 0 {
        assert(b.len() == 0) by {
            vstd::seq_lib::to_multiset_len(a);
            vstd::seq_lib::to_multiset_len(b);
        }
        assert(child_rows(a, cols) =~= child_rows(b, cols));
    } else {
        let x = a.last();
        let a1 = a.drop_last();
        assert(a =~= a1.push(x));
        vstd::seq_lib::to_multiset_build(a1, x);
        assert(a.to_multiset().count(x) > 0);
        vstd::seq_lib::to_multiset_contains(b, x);
        let k = choose|k: int| 0 <= k < b.len() && b[k] == x;
        let b1 = b.remove(k);
        vstd::seq_lib::to_multiset_remove(b, k);
        assert(a1.to_multiset() =~= b1.to_multiset());
        lemma_rows_up_to_order(a1, b1, cols);
        lemma_write_anywhere(x, cols, a.len() - 1, k);
        let w = write_cells(x, cols, k);
        assert forall|m: int| 0 <= m < a1.len() implies child_rows(a1, cols)[m] == child_rows(a, cols)[m] by {}
        assert(child_rows(a, cols) =~= child_rows(a1, cols).push(w));
        assert forall|m: int| 0 <= m < b.len() implies child_rows(b, cols)[m] == child_rows(b1, cols).insert(k, w)[m] by {
            if m < k {
                assert(b[m] == b1[m]);
            } else if m > k {
                assert(b[m] == b1[m - 1]);
                lemma_write_anywhere(b[m], cols, m, m - 1);
            }
        }
        assert(child_rows(b, cols) =~= child_rows(b1, cols).insert(k, w));
        vstd::seq_lib::to_multiset_build(child_rows(a1, cols), w);
        vstd::seq_lib::to_multiset_insert(child_rows(b1, cols), k, w);
    }
}

// ---------------------------------------------------------------------
// A save into an empty store leaves the saved state.

proof fn lemma_children_compare(recs: Seq<RecordV>, items: Seq<JsonV>, cols: Seq<ColumnV>)
    requires
        children_back(recs, child_rows(items, cols)),
        forall|k: int| 0 <= k < cols.len() ==> (#[trigger] cols[k]).kind != ColKind::JsonList && cols[k].kind
            != ColKind::JsonValue,
    ensures
        Seq::new(recs.len(), |k: int| sig_cells(recs[k], cols)) == child_rows(items, cols),
{
    assert forall|k: int| 0 <= k < recs.len() implies sig_cells(recs[k], cols) == child_rows(items, cols)[k] by {
        assert(recs[k].cells == write_cells(items[k], cols, k));
        law_written_rows_compare_equal(recs[k], items[k], cols, k);
    }
    assert(Seq::new(recs.len(), |k: int| sig_cells(recs[k], cols)) =~= child_rows(items, cols));
}

proof fn lemma_read_back_saved(recs: Seq<RecordV>, items: Seq<JsonV>, cols: Seq<ColumnV>)
    requires
        reads_back(recs, all_written(items, cols), items, cols),
        cols.len() > 0,
        cols[0] == crate::schema::cv("id", "id", ColKind::Text),
    ensures
        table_saved(recs, items, cols),
{
    assert forall|i: int| 0 <= i < recs.len() implies record_id(#[trigger] recs[i]) == str_field(items[i], "id"@)
        && sig_cells(recs[i], cols) == write_cells(items[i], cols, i) by {
        assert(recs[i].cells == all_written(items, cols)[i].0);
        lemma_record_id_written(recs[i], items[i], cols, i);
        law_written_rows_compare_equal(recs[i], items[i], cols, i);
    }
}

/// A save into an empty store, read back as [`holds_saved`] describes,
/// leaves the saved state; so saving the same document again then changes
/// nothing (see [`law_save_again_changes_nothing`]).
pub proof fn law_save_into_empty_leaves_saved_state(d: JsonV, after: SnapshotV, lo: spec_fn(int) -> Seq<JsonV>)
    requires
        holds_saved(d, after, lo),
    ensures
        saved_state(d, after),
{
    lemma_save_into_empty_store(d);
    lemma_read_back_saved(after.projects, list_field(d, "projects"@), schema(Table::Projects));
    lemma_read_back_saved(after.proj_stages, list_field(d, "projStages"@), schema(Table::ProjStages));
    lemma_read_back_saved(after.clients, list_field(d, "clients"@), schema(Table::Clients));
    lemma_read_back_saved(after.tags, list_field(d, "tags"@), schema(Table::Tags));
    lemma_read_back_saved(after.notes, list_field(d, "notes"@), schema(Table::Notes));
    lemma_read_back_saved(after.smart_lists, list_field(d, "smartLists"@), schema(Table::SmartLists));
    let tasks = list_field(d, "tasks"@);
    let ws = Seq::new(tasks.len(), |i: int| task_write(tasks[i], i));
    let tcols = schema(Table::Tasks);
    assert(tcols[0] == crate::schema::cv("id", "id", ColKind::Text));
    assert forall|i: int| 0 <= i < after.tasks.len() implies record_id(#[trigger] after.tasks[i]) == str_field(tasks[i], "id"@)
        && sig_cells(after.tasks[i], tcols) == write_cells(tasks[i], tcols, i) by {
        assert(after.tasks[i].cells == task_rows(ws)[i].0);
        lemma_record_id_written(after.tasks[i], tasks[i], tcols, i);
        law_written_rows_compare_equal(after.tasks[i], tasks[i], tcols, i);
    }
    let scols = schema(Table::Subtasks);
    let lcols = schema(Table::Logs);
    assert(no_position(lcols));
    assert forall|i: int| 0 <= i < tasks.len() implies child_sigs(after.subtasks, str_field(#[trigger] tasks[i], "id"@), scols)
        == child_rows(list_field(tasks[i], "subtasks"@), scols) && child_sigs(after.logs, str_field(tasks[i], "id"@), lcols).to_multiset()
        == child_rows(list_field(tasks[i], "logs"@), lcols).to_multiset() by {
        let id = str_field(tasks[i], "id"@);
        assert(children_back(children_of(after.subtasks, id), ws[i].subtasks));
        assert(children_back(children_of(after.logs, id), child_rows(lo(i), lcols)));
        lemma_child_sigs(after.subtasks, id, scols);
        lemma_children_compare(children_of(after.subtasks, id), list_field(tasks[i], "subtasks"@), scols);
        lemma_child_sigs(after.logs, id, lcols);
        lemma_children_compare(children_of(after.logs, id), lo(i), lcols);
        assert(log_order(list_field(tasks[i], "logs"@), lo(i)));
        lemma_rows_up_to_order(lo(i), list_field(tasks[i], "logs"@), lcols);
    }
}

} // verus!

verus! {

// ---------------------------------------------------------------------
// Deletes, and items left alone.

/// A save deletes exactly the stored rows whose id the document no longer
/// has.
pub proof fn law_deletes_are_the_missing(cur: Seq<RecordV>, items: Seq<JsonV>, id: Seq<char>)
    ensures
        removed_ids(cur, items).contains(id) <==> (exists|k: int| 0 <= k < cur.len() && record_id(#[trigger] cur[k]) == id)
            && !item_ids(items).contains(id),
    decreases cur.len(),
{
    if cur.len() > 0 {
        let rest = cur.drop_last();
        let last = record_id(cur[cur.len() - 1]);
        law_deletes_are_the_missing(rest, items, id);
        let r = removed_ids(rest, items);
        let in_cur = exists|k: int| 0 <= k < cur.len() && record_id(#[trigger] cur[k]) == id;
        let in_rest = exists|k: int| 0 <= k < rest.len() && record_id(#[trigger] rest[k]) == id;
        assert(in_cur <==> (in_rest || last == id)) by {
            if in_rest {
                let k = choose|k: int| 0 <= k < rest.len() && record_id(#[trigger] rest[k]) == id;
                assert(cur[k] == rest[k]);
            }
            if last == id {
                assert(record_id(cur[cur.len() - 1]) == id);
            }
            if in_cur {
                let k = choose|k: int| 0 <= k < cur.len() && record_id(#[trigger] cur[k]) == id;
                if k < cur.len() - 1 {
                    assert(rest[k] == cur[k]);
                }
            }
        }
        if !item_ids(items).contains(last) {
            assert(removed_ids(cur, items) == r.push(last));
            assert(r.push(last).contains(id) <==> (r.contains(id) || last == id)) by {
                if r.contains(id) {
                    let i = choose|i: int| 0 <= i < r.len() && r[i] == id;
                    assert(r.push(last)[i] == id);
                }
                if last == id {
                    assert(r.push(last)[r.len() as int] == id);
                }
                if r.push(last).contains(id) {
                    let i = choose|i: int| 0 <= i < r.len() + 1 && r.push(last)[i] == id;
                    if i < r.len() {
                        assert(r[i] == id);
                    }
                }
            }
        } else {
            assert(removed_ids(cur, items) == r);
        }
    }
}

/// The stored JSON text of a row determines the value it parses to: when
/// it equals the text of `j`'s value, it parses to that value (and a text
/// that does not parse is taken as the default).
pub open spec fn json_text_determines_value(rec: RecordV, j: JsonV, cols: Seq<ColumnV>) -> bool {
    forall|k: int|
        #![trigger cols[k]]
        0 <= k < cols.len() ==> {
            &&& cols[k].kind == ColKind::JsonList ==> (crate::schema::json_text_or(rec.json, "[]"@) == text_at(
                j,
                cols[k].key,
            ) ==> crate::schema::json_value_or(rec.json, JsonV::Arr(Seq::empty())) == at(j, cols[k].key))
            &&& cols[k].kind == ColKind::JsonValue ==> (crate::schema::json_text_or(rec.json, "null"@) == text_at(
                j,
                cols[k].key,
            ) ==> crate::schema::json_value_or(rec.json, JsonV::Null) == at(j, cols[k].key))
        }
}

/// An item a save leaves alone already reads back as the document has it:
/// every column but the position (a flag kept as a number, provided it
/// holds `0` or `1`, as every row a save writes does).
pub proof fn law_items_left_alone_read_back(cur: Seq<RecordV>, cols: Seq<ColumnV>, j: JsonV, pos: int)
    requires
        unchanged(cur, cols, j, pos),
        json_text_determines_value(cur[find_record(cur, str_field(j, "id"@)).unwrap()], j, cols),
    ensures
        ({
            let rec = cur[find_record(cur, str_field(j, "id"@)).unwrap()];
            forall|k: int|
                0 <= k < cols.len() && (#[trigger] cols[k]).kind != ColKind::Position && (cols[k].kind
                    == ColKind::FlagNumber ==> (int_cell(rec.cells, k) == 0 || int_cell(rec.cells, k) == 1))
                    ==> out_cell(rec, k, cols[k]) == expected_field(j, cols[k], pos)
        }),
{
    let rec = cur[find_record(cur, str_field(j, "id"@)).unwrap()];
    assert forall|k: int|
        0 <= k < cols.len() && (#[trigger] cols[k]).kind != ColKind::Position && (cols[k].kind == ColKind::FlagNumber
            ==> (int_cell(rec.cells, k) == 0 || int_cell(rec.cells, k) == 1)) implies out_cell(rec, k, cols[k])
        == expected_field(j, cols[k], pos) by {
        assert(sig_cells(rec, cols)[k] == write_cells(j, cols, pos)[k]);
        assert(sig_cell(rec, k, cols[k]) == write_cell(j, cols[k], pos));
    }
}

} // verus!

verus! {

// ---------------------------------------------------------------------
// What a save detects and writes.

/// A stored item found at another position than the document's is
/// written again (with its new position as sort index).
pub proof fn law_moved_item_rewritten(cur: Seq<RecordV>, cols: Seq<ColumnV>, j: JsonV, pos: int)
    requires
        find_record(cur, str_field(j, "id"@)) matches Some(ci) && ci != pos,
    ensures
        !unchanged(cur, cols, j, pos),
{
}

/// A stored task found at another position than the document's is
/// written again.
pub proof fn law_moved_task_rewritten(cur: SnapshotV, t: JsonV, pos: int)
    requires
        find_record(cur.tasks, str_field(t, "id"@)) matches Some(ci) && ci != pos,
    ensures
        !task_unchanged(cur, t, pos),
{
}

/// Every item that is new, moved, or differs in any written field from
/// what its stored row compares as, is written, at its position.
pub proof fn law_changed_item_written(items: Seq<JsonV>, cur: Seq<RecordV>, cols: Seq<ColumnV>, i: int)
    requires
        0 <= i < items.len(),
        !unchanged(cur, cols, items[i], i),
    ensures
        written(items, cur, cols, true).contains((write_cells(items[i], cols, i), i as i64)),
    decreases items.len(),
{
    let n = items.len() - 1;
    let rest = written(items.drop_last(), cur, cols, true);
    if i == n {
        assert(written(items, cur, cols, true) == rest.push((write_cells(items[i], cols, i), i as i64)));
        assert(written(items, cur, cols, true)[rest.len() as int] == (write_cells(items[i], cols, i), i as i64));
    } else {
        assert(items.drop_last()[i] == items[i]);
        law_changed_item_written(items.drop_last(), cur, cols, i);
        let k = choose|k: int| 0 <= k < rest.len() && rest[k] == (write_cells(items[i], cols, i), i as i64);
        assert(written(items, cur, cols, true)[k] == rest[k]);
    }
}

/// Every task that is new, moved, or changed in a field, a subtask or the
/// logs, is written, at its position, with all its subtasks and logs.
pub proof fn law_changed_task_written(items: Seq<JsonV>, cur: SnapshotV, i: int)
    requires
        0 <= i < items.len(),
        !task_unchanged(cur, items[i], i),
    ensures
        task_writes(items, cur).contains(task_write(items[i], i)),
    decreases items.len(),
{
    let n = items.len() - 1;
    let rest = task_writes(items.drop_last(), cur);
    if i == n {
        assert(task_writes(items, cur)[rest.len() as int] == task_write(items[i], i));
    } else {
        assert(items.drop_last()[i] == items[i]);
        law_changed_task_written(items.drop_last(), cur, i);
        let k = choose|k: int| 0 <= k < rest.len() && rest[k] == task_write(items[i], i);
        assert(task_writes(items, cur)[k] == rest[k]);
    }
}

/// After a save every item stands at its document position: it is either
/// written with that position as sort index, or was found stored there.
pub proof fn law_items_keep_their_position(items: Seq<JsonV>, cur: Seq<RecordV>, cols: Seq<ColumnV>, i: int)
    requires
        0 <= i < items.len(),
    ensures
        written(items, cur, cols, true).contains((write_cells(items[i], cols, i), i as i64)) || find_record(
            cur,
            str_field(items[i], "id"@),
        ) == Some(i),
{
    if !unchanged(cur, cols, items[i], i) {
        law_changed_item_written(items, cur, cols, i);
    }
}

/// After a save every task stands at its document position: it is either
/// written with that position as sort index, or was found stored there.
pub proof fn law_tasks_keep_their_position(items: Seq<JsonV>, cur: SnapshotV, i: int)
    requires
        0 <= i < items.len(),
    ensures
        task_writes(items, cur).contains(task_write(items[i], i)) || find_record(cur.tasks, str_field(items[i], "id"@))
            == Some(i),
{
    if !task_unchanged(cur, items[i], i) {
        law_changed_task_written(items, cur, i);
    }
}

/// A task whose logs are only put in another order is no change.
pub proof fn law_log_order_no_change(cur: SnapshotV, t: JsonV, t2: JsonV, pos: int)
    requires
        str_field(t, "id"@) == str_field(t2, "id"@),
        write_cells(t, schema(Table::Tasks), pos) == write_cells(t2, schema(Table::Tasks), pos),
        list_field(t, "subtasks"@) == list_field(t2, "subtasks"@),
        list_field(t, "logs"@).to_multiset() == list_field(t2, "logs"@).to_multiset(),
    ensures
        task_unchanged(cur, t, pos) == task_unchanged(cur, t2, pos),
{
    assert(no_position(schema(Table::Logs)));
    lemma_rows_up_to_order(list_field(t, "logs"@), list_field(t2, "logs"@), schema(Table::Logs));
}

// ---------------------------------------------------------------------
// Which ids a table holds after a save.

/// The ids of a table's rows.
pub open spec fn stored_ids(cur: Seq<RecordV>) -> Seq<Seq<char>> {
    Seq::new(cur.len(), |k: int| record_id(cur[k]))
}

/// The ids of rows to write.
pub open spec fn upsert_ids(ups: Seq<(Seq<CellV>, i64)>) -> Seq<Seq<char>> {
    Seq::new(ups.len(), |k: int| text_cell(ups[k].0, 0))
}

/// The ids a table holds after a plan is carried out: the stored ones not
/// deleted, and those written.
pub open spec fn ids_after(cur: Seq<RecordV>, p: TablePlanV) -> Set<Seq<char>> {
    Set::new(|x: Seq<char>| (stored_ids(cur).contains(x) && !p.deletes.contains(x)) || upsert_ids(p.upserts).contains(x))
}

pub open spec fn ids_of(items: Seq<JsonV>) -> Set<Seq<char>> {
    Set::new(|x: Seq<char>| item_ids(items).contains(x))
}

proof fn lemma_find_record_some(cur: Seq<RecordV>, id: Seq<char>)
    ensures
        find_record(cur, id) matches Some(ci) ==> 0 <= ci < cur.len() && record_id(cur[ci]) == id,
        find_record(cur, id) is None ==> !stored_ids(cur).contains(id),
    decreases cur.len(),
{
    if cur.len() > 0 {
        lemma_find_record_some(cur.drop_first(), id);
        if find_record(cur, id) is None {
            assert forall|k: int| 0 <= k < cur.len() implies stored_ids(cur)[k] != id by {
                if k > 0 {
                    assert(cur.drop_first()[k - 1] == cur[k]);
                    assert(stored_ids(cur.drop_first())[k - 1] == record_id(cur[k]));
                }
            }
        }
    }
}

proof fn lemma_written_ids(items: Seq<JsonV>, cur: Seq<RecordV>, cols: Seq<ColumnV>, detect: bool, k: int)
    requires
        0 <= k < written(items, cur, cols, detect).len(),
        cols.len() > 0,
        cols[0] == crate::schema::cv("id", "id", ColKind::Text),
    ensures
        item_ids(items).contains(text_cell(written(items, cur, cols, detect)[k].0, 0)),
    decreases items.len(),
{
    let n = items.len() - 1;
    let rest = written(items.drop_last(), cur, cols, detect);
    if k < rest.len() {
        lemma_written_ids(items.drop_last(), cur, cols, detect, k);
        let m = choose|m: int| 0 <= m < item_ids(items.drop_last()).len() && item_ids(items.drop_last())[m]
            == text_cell(rest[k].0, 0);
        assert(item_ids(items)[m] == item_ids(items.drop_last())[m]);
        assert(written(items, cur, cols, detect)[k] == rest[k]);
    } else {
        assert(written(items, cur, cols, detect)[k].0 == write_cells(items[n], cols, n));
        assert(write_cells(items[n], cols, n)[0] == write_cell(items[n], cols[0], n));
        assert(item_ids(items)[n] == str_field(items[n], "id"@));
    }
}

/// After a save, a table holds exactly the ids of the document's items:
/// the stored rows it no longer has are deleted, every new item is written.
pub proof fn law_ids_after_save(items: Seq<JsonV>, cur: Seq<RecordV>, cols: Seq<ColumnV>, detect: bool)
    requires
        cols.len() > 0,
        cols[0] == crate::schema::cv("id", "id", ColKind::Text),
    ensures
        ids_after(cur, table_plan(items, cur, cols, detect)) == ids_of(items),
{
    let p = table_plan(items, cur, cols, detect);
    assert forall|x: Seq<char>| ids_after(cur, p).contains(x) <==> ids_of(items).contains(x) by {
        law_deletes_are_the_missing(cur, items, x);
        let in_cur = exists|k: int| 0 <= k < cur.len() && record_id(#[trigger] cur[k]) == x;
        assert(stored_ids(cur).contains(x) <==> in_cur) by {
            if stored_ids(cur).contains(x) {
                let k = choose|k: int| 0 <= k < stored_ids(cur).len() && stored_ids(cur)[k] == x;
                assert(record_id(cur[k]) == x);
            }
            if in_cur {
                let k = choose|k: int| 0 <= k < cur.len() && record_id(#[trigger] cur[k]) == x;
                assert(stored_ids(cur)[k] == x);
            }
        }
        if upsert_ids(p.upserts).contains(x) {
            let k = choose|k: int| 0 <= k < upsert_ids(p.upserts).len() && upsert_ids(p.upserts)[k] == x;
            lemma_written_ids(items, cur, cols, detect, k);
        }
        if item_ids(items).contains(x) && !stored_ids(cur).contains(x) {
            let i = choose|i: int| 0 <= i < item_ids(items).len() && item_ids(items)[i] == x;
            lemma_find_record_some(cur, x);
            if detect {
                law_changed_item_written(items, cur, cols, i);
                let k = choose|k: int| 0 <= k < p.upserts.len() && p.upserts[k] == (write_cells(items[i], cols, i), i as i64);
                assert(write_cells(items[i], cols, i)[0] == write_cell(items[i], cols[0], i));
                assert(upsert_ids(p.upserts)[k] == x);
            } else {
                lemma_written_without_detection(items, cur, cols);
                assert(write_cells(items[i], cols, i)[0] == write_cell(items[i], cols[0], i));
                assert(upsert_ids(p.upserts)[i] == x);
            }
        }
    }
    assert(ids_after(cur, p) =~= ids_of(items));
}

/// The ids of the tasks written.
pub open spec fn task_write_ids(ws: Seq<TaskWriteV>) -> Seq<Seq<char>> {
    Seq::new(ws.len(), |k: int| text_cell(ws[k].row, 0))
}

proof fn lemma_task_write_ids(items: Seq<JsonV>, cur: SnapshotV, k: int)
    requires
        0 <= k < task_writes(items, cur).len(),
    ensures
        item_ids(items).contains(text_cell(task_writes(items, cur)[k].row, 0)),
    decreases items.len(),
{
    let n = items.len() - 1;
    let rest = task_writes(items.drop_last(), cur);
    let cols = schema(Table::Tasks);
    if k < rest.len() {
        lemma_task_write_ids(items.drop_last(), cur, k);
        let m = choose|m: int| 0 <= m < item_ids(items.drop_last()).len() && item_ids(items.drop_last())[m]
            == text_cell(rest[k].row, 0);
        assert(item_ids(items)[m] == item_ids(items.drop_last())[m]);
        assert(task_writes(items, cur)[k] == rest[k]);
    } else {
        assert(task_writes(items, cur)[k].row == write_cells(items[n], cols, n));
        assert(write_cells(items[n], cols, n)[0] == write_cell(items[n], cols[0], n));
        assert(item_ids(items)[n] == str_field(items[n], "id"@));
    }
}

/// After a save, the tasks table holds exactly the ids of the document's
/// tasks: the stored tasks it no longer has are deleted (their subtasks
/// and logs with them), every new task is written.
pub proof fn law_task_ids_after_save(items: Seq<JsonV>, cur: SnapshotV)
    ensures
        Set::new(
            |x: Seq<char>|
                (stored_ids(cur.tasks).contains(x) && !removed_ids(cur.tasks, items).contains(x)) || task_write_ids(
                    task_writes(items, cur),
                ).contains(x),
        ) == ids_of(items),
{
    let ws = task_writes(items, cur);
    let s = Set::new(
        |x: Seq<char>|
            (stored_ids(cur.tasks).contains(x) && !removed_ids(cur.tasks, items).contains(x)) || task_write_ids(
                ws,
            ).contains(x),
    );
    assert forall|x: Seq<char>| s.contains(x) <==> ids_of(items).contains(x) by {
        law_deletes_are_the_missing(cur.tasks, items, x);
        let in_cur = exists|k: int| 0 <= k < cur.tasks.len() && record_id(#[trigger] cur.tasks[k]) == x;
        assert(stored_ids(cur.tasks).contains(x) <==> in_cur) by {
            if stored_ids(cur.tasks).contains(x) {
                let k = choose|k: int| 0 <= k < stored_ids(cur.tasks).len() && stored_ids(cur.tasks)[k] == x;
                assert(record_id(cur.tasks[k]) == x);
            }
            if in_cur {
                let k = choose|k: int| 0 <= k < cur.tasks.len() && record_id(#[trigger] cur.tasks[k]) == x;
                assert(stored_ids(cur.tasks)[k] == x);
            }
        }
        if task_write_ids(ws).contains(x) {
            let k = choose|k: int| 0 <= k < task_write_ids(ws).len() && task_write_ids(ws)[k] == x;
            lemma_task_write_ids(items, cur, k);
        }
        if item_ids(items).contains(x) && !stored_ids(cur.tasks).contains(x) {
            let i = choose|i: int| 0 <= i < item_ids(items).len() && item_ids(items)[i] == x;
            lemma_find_record_some(cur.tasks, x);
            law_changed_task_written(items, cur, i);
            let k = choose|k: int| 0 <= k < ws.len() && ws[k] == task_write(items[i], i);
            let cols = schema(Table::Tasks);
            assert(write_cells(items[i], cols, i)[0] == write_cell(items[i], cols[0], i));
            assert(task_write_ids(ws)[k] == x);
        }
    }
    assert(s =~= ids_of(items));
}

} // verus!

verus! {

// ---------------------------------------------------------------------
// The shape of a loaded document.

/// The value under key `k` among the members (the first with that key).
pub open spec fn entry(es: Seq<OutFieldV>, k: Seq<char>) -> Option<OutV> {
    match key_index(es, k) {
        Some(i) => Some(es[i].value),
        None => None,
    }
}

proof fn lemma_key_index_spec(es: Seq<OutFieldV>, k: Seq<char>)
    ensures
        key_index(es, k) matches Some(i) ==> 0 <= i < es.len() && es[i].key == k && forall|j: int|
            0 <= j < i ==> (#[trigger] es[j]).key != k,
        key_index(es, k) is None ==> forall|j: int| 0 <= j < es.len() ==> (#[trigger] es[j]).key != k,
    decreases es.len(),
{
    if es.len() > 0 {
        lemma_key_index_spec(es.drop_first(), k);
        assert forall|j: int| 1 <= j < es.len() implies es[j] == #[trigger] es.drop_first()[j - 1] by {}
        if key_index(es, k) is None {
            assert forall|j: int| 0 <= j < es.len() implies (#[trigger] es[j]).key != k by {
                if j > 0 {
                    assert(es[j] == es.drop_first()[j - 1]);
                }
            }
        }
        if let Some(i) = key_index(es, k) {
            if i > 0 {
                assert forall|j: int| 0 <= j < i implies (#[trigger] es[j]).key != k by {
                    if j > 0 {
                        assert(es[j] == es.drop_first()[j - 1]);
                    }
                }
            }
        }
    }
}

/// Setting a key gives it the value set and leaves every other key as it
/// was.
pub proof fn lemma_put_entry(es: Seq<OutFieldV>, k: Seq<char>, v: OutV, k2: Seq<char>)
    ensures
        entry(put(es, k, v), k2) == (if k2 == k {
            Some(v)
        } else {
            entry(es, k2)
        }),
{
    let f = OutFieldV { key: k, value: v };
    let es2 = put(es, k, v);
    lemma_key_index_spec(es, k);
    lemma_key_index_spec(es, k2);
    lemma_key_index_spec(es2, k2);
    match key_index(es, k) {
        Some(i) => {
            assert(es2 == es.update(i, f));
            assert forall|j: int| 0 <= j < es.len() implies (#[trigger] es2[j]).key == es[j].key by {}
            if k2 == k {
                lemma_key_index_at(es2, i, k);
            } else {
                match key_index(es, k2) {
                    Some(j) => {
                        lemma_key_index_at(es2, j, k2);
                        assert(j != i);
                    },
                    None => {
                        lemma_key_index_absent(es2, k2);
                    },
                }
            }
        },
        None => {
            assert(es2 == es.push(f));
            if k2 == k {
                lemma_key_index_at(es2, es.len() as int, k);
            } else {
                match key_index(es, k2) {
                    Some(j) => {
                        lemma_key_index_at(es2, j, k2);
                    },
                    None => {
                        assert forall|j: int| 0 <= j < es2.len() implies (#[trigger] es2[j]).key != k2 by {
                            if j < es.len() {
                                assert(es2[j] == es[j]);
                            }
                        }
                        lemma_key_index_absent(es2, k2);
                    },
                }
            }
        },
    }
}

/// The value the last stored meta row with key `k` reads back as.
pub open spec fn meta_entry(recs: Seq<RecordV>, k: Seq<char>) -> Option<OutV>
    decreases recs.len(),
{
    if recs.len() == 0 {
        None
    } else if text_cell(recs.last().cells, 0) == k {
        Some(meta_value(recs.last()))
    } else {
        meta_entry(recs.drop_last(), k)
    }
}

proof fn lemma_with_meta_entry(es: Seq<OutFieldV>, recs: Seq<RecordV>, k: Seq<char>)
    ensures
        entry(with_meta(es, recs), k) == (match meta_entry(recs, k) {
            Some(v) => Some(v),
            None => entry(es, k),
        }),
    decreases recs.len(),
{
    if recs.len() > 0 {
        lemma_with_meta_entry(es, recs.drop_last(), k);
        lemma_put_entry(
            with_meta(es, recs.drop_last()),
            text_cell(recs.last().cells, 0),
            meta_value(recs.last()),
            k,
        );
    }
}

/// The keys of the collections of a loaded document.
pub open spec fn collection_key(k: Seq<char>) -> bool {
    k == "projects"@ || k == "projStages"@ || k == "clients"@ || k == "tags"@ || k == "notes"@ || k
        == "smartLists"@ || k == "noteCats"@ || k == "tasks"@
}

/// What a load gives: when anything worth loading is stored, an object
/// with every collection as stored (projects, stages, clients, tags,
/// notes, smart lists as the objects of their rows in stored order, the
/// note categories as strings, the tasks with their subtasks and logs);
/// `version`, `seeded` and `prefs` as the last stored meta row with that
/// key reads back (its text parsed as JSON, or the text itself), else 1,
/// `false` and `{"pid":"","pri":"P2"}`; and every other key as the last
/// stored meta row with that key reads back.
pub proof fn law_load_shape(cur: SnapshotV)
    requires
        has_data(cur),
    ensures
        load_doc(cur) == Some(OutV::Obj(doc_entries(cur))),
        entry(doc_entries(cur), "projects"@) == Some(OutV::List(rows_out(cur.projects, schema(Table::Projects)))),
        entry(doc_entries(cur), "projStages"@) == Some(
            OutV::List(rows_out(cur.proj_stages, schema(Table::ProjStages))),
        ),
        entry(doc_entries(cur), "clients"@) == Some(OutV::List(rows_out(cur.clients, schema(Table::Clients)))),
        entry(doc_entries(cur), "tags"@) == Some(OutV::List(rows_out(cur.tags, schema(Table::Tags)))),
        entry(doc_entries(cur), "notes"@) == Some(OutV::List(rows_out(cur.notes, schema(Table::Notes)))),
        entry(doc_entries(cur), "smartLists"@) == Some(
            OutV::List(rows_out(cur.smart_lists, schema(Table::SmartLists))),
        ),
        entry(doc_entries(cur), "noteCats"@) == Some(OutV::List(note_cats_out(cur.note_cats))),
        entry(doc_entries(cur), "tasks"@) == Some(OutV::List(tasks_out(cur))),
        entry(doc_entries(cur), "version"@) == Some(
            match meta_entry(cur.meta, "version"@) {
                Some(v) => v,
                None => OutV::Int(1),
            },
        ),
        entry(doc_entries(cur), "seeded"@) == Some(
            match meta_entry(cur.meta, "seeded"@) {
                Some(v) => v,
                None => OutV::Bool(false),
            },
        ),
        entry(doc_entries(cur), "prefs"@) == Some(
            match meta_entry(cur.meta, "prefs"@) {
                Some(v) => v,
                None => default_prefs(),
            },
        ),
        forall|k: Seq<char>|
            !collection_key(k) && k != "version"@ && k != "seeded"@ && k != "prefs"@ ==> #[trigger] entry(
                doc_entries(cur),
                k,
            ) == meta_entry(cur.meta, k),
{
    let e0 = seq![
        OutFieldV { key: "version"@, value: OutV::Int(1) },
        OutFieldV { key: "seeded"@, value: OutV::Bool(false) },
    ];
    let e1 = with_meta(e0, cur.meta);
    let e2 = put(e1, "projects"@, OutV::List(rows_out(cur.projects, schema(Table::Projects))));
    let e3 = put(e2, "projStages"@, OutV::List(rows_out(cur.proj_stages, schema(Table::ProjStages))));
    let e4 = put(e3, "clients"@, OutV::List(rows_out(cur.clients, schema(Table::Clients))));
    let e5 = put(e4, "tags"@, OutV::List(rows_out(cur.tags, schema(Table::Tags))));
    let e6 = put(e5, "notes"@, OutV::List(rows_out(cur.notes, schema(Table::Notes))));
    let e7 = put(e6, "smartLists"@, OutV::List(rows_out(cur.smart_lists, schema(Table::SmartLists))));
    let e8 = put(e7, "noteCats"@, OutV::List(note_cats_out(cur.note_cats)));
    let e9 = put(e8, "tasks"@, OutV::List(tasks_out(cur)));
    lemma_doc_keys_distinct();
    assert forall|k: Seq<char>| #[trigger] entry(doc_entries(cur), k) == (if k == "prefs"@ && entry(e9, k) is None {
        Some(default_prefs())
    } else {
        entry(e9, k)
    }) by {
        if key_index(e9, "prefs"@) is None {
            lemma_put_entry(e9, "prefs"@, default_prefs(), k);
        }
    }
    assert forall|k: Seq<char>| #[trigger] entry(e9, k) == (if k == "tasks"@ {
        Some(OutV::List(tasks_out(cur)))
    } else if k == "noteCats"@ {
        Some(OutV::List(note_cats_out(cur.note_cats)))
    } else if k == "smartLists"@ {
        Some(OutV::List(rows_out(cur.smart_lists, schema(Table::SmartLists))))
    } else if k == "notes"@ {
        Some(OutV::List(rows_out(cur.notes, schema(Table::Notes))))
    } else if k == "tags"@ {
        Some(OutV::List(rows_out(cur.tags, schema(Table::Tags))))
    } else if k == "clients"@ {
        Some(OutV::List(rows_out(cur.clients, schema(Table::Clients))))
    } else if k == "projStages"@ {
        Some(OutV::List(rows_out(cur.proj_stages, schema(Table::ProjStages))))
    } else if k == "projects"@ {
        Some(OutV::List(rows_out(cur.projects, schema(Table::Projects))))
    } else {
        entry(e1, k)
    }) by {
        lemma_put_entry(e8, "tasks"@, OutV::List(tasks_out(cur)), k);
        lemma_put_entry(e7, "noteCats"@, OutV::List(note_cats_out(cur.note_cats)), k);
        lemma_put_entry(e6, "smartLists"@, OutV::List(rows_out(cur.smart_lists, schema(Table::SmartLists))), k);
        lemma_put_entry(e5, "notes"@, OutV::List(rows_out(cur.notes, schema(Table::Notes))), k);
        lemma_put_entry(e4, "tags"@, OutV::List(rows_out(cur.tags, schema(Table::Tags))), k);
        lemma_put_entry(e3, "clients"@, OutV::List(rows_out(cur.clients, schema(Table::Clients))), k);
        lemma_put_entry(e2, "projStages"@, OutV::List(rows_out(cur.proj_stages, schema(Table::ProjStages))), k);
        lemma_put_entry(e1, "projects"@, OutV::List(rows_out(cur.projects, schema(Table::Projects))), k);
    }
    assert forall|k: Seq<char>| #[trigger] entry(e1, k) == (match meta_entry(cur.meta, k) {
        Some(v) => Some(v),
        None => entry(e0, k),
    }) by {
        lemma_with_meta_entry(e0, cur.meta, k);
    }
    lemma_key_index_at(e0, 0, "version"@);
    lemma_key_index_at(e0, 1, "seeded"@);
    assert forall|k: Seq<char>| k != "version"@ && k != "seeded"@ implies #[trigger] entry(e0, k) is None by {
        assert forall|j: int| 0 <= j < e0.len() implies (#[trigger] e0[j]).key != k by {}
        lemma_key_index_absent(e0, k);
    }
    assert(entry(e0, "prefs"@) is None);
}

} // verus!

verus! {

/// A save leaves no child without its task.
///
/// When every stored subtask or log (`ch`) belongs to a stored task, then
/// after a save: every child that stays (its task neither deleted nor
/// written; the children of a deleted task are deleted with it, those of a
/// written task replaced by its own) belongs to a task of the document,
/// and so does every child written (it carries the id of the task written
/// with it).
pub proof fn law_no_orphan_children(items: Seq<JsonV>, cur: SnapshotV, ch: Seq<ChildV>)
    requires
        forall|k: int| 0 <= k < ch.len() ==> stored_ids(cur.tasks).contains(#[trigger] ch[k].task_id),
    ensures
        forall|k: int|
            0 <= k < ch.len() && !removed_ids(cur.tasks, items).contains(#[trigger] ch[k].task_id)
                && !task_write_ids(task_writes(items, cur)).contains(ch[k].task_id) ==> ids_of(items).contains(
                ch[k].task_id,
            ),
        forall|k: int|
            0 <= k < task_writes(items, cur).len() ==> ids_of(items).contains(
                text_cell(#[trigger] task_writes(items, cur)[k].row, 0),
            ),
{
    law_task_ids_after_save(items, cur);
    let ws = task_writes(items, cur);
    let s = Set::new(
        |x: Seq<char>|
            (stored_ids(cur.tasks).contains(x) && !removed_ids(cur.tasks, items).contains(x)) || task_write_ids(
                ws,
            ).contains(x),
    );
    assert forall|k: int| 0 <= k < ws.len() implies ids_of(items).contains(text_cell(#[trigger] ws[k].row, 0)) by {
        assert(task_write_ids(ws)[k] == text_cell(ws[k].row, 0));
        assert(s.contains(text_cell(ws[k].row, 0)));
    }
    assert forall|k: int|
        0 <= k < ch.len() && !removed_ids(cur.tasks, items).contains(#[trigger] ch[k].task_id)
            && !task_write_ids(ws).contains(ch[k].task_id) implies ids_of(items).contains(ch[k].task_id) by {
        assert(s.contains(ch[k].task_id));
    }
}

} // verus!

verus! {

/// An item a save leaves alone is already stored as the document has it:
/// for every item of the collection, either the save writes it at its
/// position, or the store holds a row with its id at that position which
/// compares equal to the row it writes.
pub proof fn law_items_left_alone_are_stored(items: Seq<JsonV>, cur: Seq<RecordV>, cols: Seq<ColumnV>, i: int)
    requires
        0 <= i < items.len(),
    ensures
        written(items, cur, cols, true).contains((write_cells(items[i], cols, i), i as i64)) || (find_record(
            cur,
            str_field(items[i], "id"@),
        ) == Some(i) && sig_cells(cur[i], cols) == write_cells(items[i], cols, i)),
{
    if !unchanged(cur, cols, items[i], i) {
        law_changed_item_written(items, cur, cols, i);
    }
}

/// A task a save leaves alone is already stored as the document has it:
/// for every task of the document, either the save writes it (at its
/// position, with all its subtasks and logs), or the store holds it at
/// that position with a row comparing equal to the one it writes, its
/// subtasks as the document's in order, and its logs as the document's
/// (each as often, in any order). So a log added to a task is never lost.
pub proof fn law_tasks_left_alone_are_stored(items: Seq<JsonV>, cur: SnapshotV, i: int)
    requires
        0 <= i < items.len(),
    ensures
        task_writes(items, cur).contains(task_write(items[i], i)) || ({
            let id = str_field(items[i], "id"@);
            &&& find_record(cur.tasks, id) == Some(i)
            &&& sig_cells(cur.tasks[i], schema(Table::Tasks)) == write_cells(items[i], schema(Table::Tasks), i)
            &&& child_sigs(cur.subtasks, id, schema(Table::Subtasks)) == child_rows(
                list_field(items[i], "subtasks"@),
                schema(Table::Subtasks),
            )
            &&& child_sigs(cur.logs, id, schema(Table::Logs)).to_multiset() == child_rows(
                list_field(items[i], "logs"@),
                schema(Table::Logs),
            ).to_multiset()
        }),
{
    if !task_unchanged(cur, items[i], i) {
        law_changed_task_written(items, cur, i);
    }
}

} // verus!

verus! {

// ---------------------------------------------------------------------
// The JSON key and SQL column of every field.

/// The `projects` table keeps, in this order, the JSON fields "id", "name", "color", "summary", "goal", "status", "landing", "isContract", "signDate", "landYear", "budget", "contract", "clientId":
/// its SQL columns are named as listed, a row is written from exactly
/// those fields of an item, and a row written from an item reads back as
/// an object with exactly those keys, each holding the field it was
/// written from.
pub proof fn law_projects_columns(j: JsonV, pos: int, rec: RecordV)
    ensures
        Seq::new(schema(Table::Projects).len(), |k: int| schema(Table::Projects)[k].name) == seq![
            "id"@,
            "name"@,
            "color"@,
            "summary"@,
            "goal"@,
            "status"@,
            "landing"@,
            "isContract"@,
            "signDate"@,
            "landYear"@,
            "budget"@,
            "contract"@,
            "client_id"@,
        ],
        write_cells(j, schema(Table::Projects), pos) == seq![
            CellV::Text(str_field(j, "id"@)),
            CellV::Text(str_field(j, "name"@)),
            CellV::Text(str_field(j, "color"@)),
            CellV::Text(str_field(j, "summary"@)),
            CellV::Text(str_field(j, "goal"@)),
            CellV::Text(str_field(j, "status"@)),
            CellV::Text(str_field(j, "landing"@)),
            CellV::Int(flag_field(j, "isContract"@)),
            CellV::Text(str_field(j, "signDate"@)),
            CellV::Int(int_field(j, "landYear"@)),
            CellV::Real(f64_bits_or_zero(at(j, "budget"@))),
            CellV::Real(f64_bits_or_zero(at(j, "contract"@))),
            CellV::Text(str_field(j, "clientId"@)),
        ],
        rec.cells == write_cells(j, schema(Table::Projects), pos) && json_back(rec, j, schema(Table::Projects)) ==> out_fields(
            rec,
            schema(Table::Projects),
        ) == seq![
            OutFieldV { key: "id"@, value: OutV::Str(str_field(j, "id"@)) },
            OutFieldV { key: "name"@, value: OutV::Str(str_field(j, "name"@)) },
            OutFieldV { key: "color"@, value: OutV::Str(str_field(j, "color"@)) },
            OutFieldV { key: "summary"@, value: OutV::Str(str_field(j, "summary"@)) },
            OutFieldV { key: "goal"@, value: OutV::Str(str_field(j, "goal"@)) },
            OutFieldV { key: "status"@, value: OutV::Str(str_field(j, "status"@)) },
            OutFieldV { key: "landing"@, value: OutV::Str(str_field(j, "landing"@)) },
            OutFieldV { key: "isContract"@, value: OutV::Int(flag_field(j, "isContract"@)) },
            OutFieldV { key: "signDate"@, value: OutV::Str(str_field(j, "signDate"@)) },
            OutFieldV { key: "landYear"@, value: OutV::Int(int_field(j, "landYear"@)) },
            OutFieldV { key: "budget"@, value: OutV::Real(f64_bits_or_zero(at(j, "budget"@))) },
            OutFieldV { key: "contract"@, value: OutV::Real(f64_bits_or_zero(at(j, "contract"@))) },
            OutFieldV { key: "clientId"@, value: OutV::Str(str_field(j, "clientId"@)) },
        ],
{
    let cols = schema(Table::Projects);
    assert(Seq::new(cols.len(), |k: int| cols[k].name) =~= seq![
        "id"@,
        "name"@,
        "color"@,
        "summary"@,
        "goal"@,
        "status"@,
        "landing"@,
        "isContract"@,
        "signDate"@,
        "landYear"@,
        "budget"@,
        "contract"@,
        "client_id"@,
    ]);
    assert(write_cells(j, cols, pos) =~= seq![
        CellV::Text(str_field(j, "id"@)),
        CellV::Text(str_field(j, "name"@)),
        CellV::Text(str_field(j, "color"@)),
        CellV::Text(str_field(j, "summary"@)),
        CellV::Text(str_field(j, "goal"@)),
        CellV::Text(str_field(j, "status"@)),
        CellV::Text(str_field(j, "landing"@)),
        CellV::Int(flag_field(j, "isContract"@)),
        CellV::Text(str_field(j, "signDate"@)),
        CellV::Int(int_field(j, "landYear"@)),
        CellV::Real(f64_bits_or_zero(at(j, "budget"@))),
        CellV::Real(f64_bits_or_zero(at(j, "contract"@))),
        CellV::Text(str_field(j, "clientId"@)),
    ]);
    if rec.cells == write_cells(j, cols, pos) && json_back(rec, j, cols) {
        lemma_out_of_written(rec, j, cols, pos);
        assert(expected_fields(j, cols, pos) =~= seq![
            OutFieldV { key: "id"@, value: OutV::Str(str_field(j, "id"@)) },
            OutFieldV { key: "name"@, value: OutV::Str(str_field(j, "name"@)) },
            OutFieldV { key: "color"@, value: OutV::Str(str_field(j, "color"@)) },
            OutFieldV { key: "summary"@, value: OutV::Str(str_field(j, "summary"@)) },
            OutFieldV { key: "goal"@, value: OutV::Str(str_field(j, "goal"@)) },
            OutFieldV { key: "status"@, value: OutV::Str(str_field(j, "status"@)) },
            OutFieldV { key: "landing"@, value: OutV::Str(str_field(j, "landing"@)) },
            OutFieldV { key: "isContract"@, value: OutV::Int(flag_field(j, "isContract"@)) },
            OutFieldV { key: "signDate"@, value: OutV::Str(str_field(j, "signDate"@)) },
            OutFieldV { key: "landYear"@, value: OutV::Int(int_field(j, "landYear"@)) },
            OutFieldV { key: "budget"@, value: OutV::Real(f64_bits_or_zero(at(j, "budget"@))) },
            OutFieldV { key: "contract"@, value: OutV::Real(f64_bits_or_zero(at(j, "contract"@))) },
            OutFieldV { key: "clientId"@, value: OutV::Str(str_field(j, "clientId"@)) },
        ]);
    }
}

/// The `proj_stages` table keeps, in this order, the JSON fields "id", "name", "ord", "landed":
/// its SQL columns are named as listed, a row is written from exactly
/// those fields of an item, and a row written from an item reads back as
/// an object with exactly those keys, each holding the field it was
/// written from.
pub proof fn law_proj_stages_columns(j: JsonV, pos: int, rec: RecordV)
    ensures
        Seq::new(schema(Table::ProjStages).len(), |k: int| schema(Table::ProjStages)[k].name) == seq![
            "id"@,
            "name"@,
            "ord"@,
            "landed"@,
        ],
        write_cells(j, schema(Table::ProjStages), pos) == seq![
            CellV::Text(str_field(j, "id"@)),
            CellV::Text(str_field(j, "name"@)),
            CellV::Int(pos as i64),
            CellV::Int(int_field(j, "landed"@)),
        ],
        rec.cells == write_cells(j, schema(Table::ProjStages), pos) && json_back(rec, j, schema(Table::ProjStages)) ==> out_fields(
            rec,
            schema(Table::ProjStages),
        ) == seq![
            OutFieldV { key: "id"@, value: OutV::Str(str_field(j, "id"@)) },
            OutFieldV { key: "name"@, value: OutV::Str(str_field(j, "name"@)) },
            OutFieldV { key: "ord"@, value: OutV::Int(pos as i64) },
            OutFieldV { key: "landed"@, value: OutV::Int(int_field(j, "landed"@)) },
        ],
{
    let cols = schema(Table::ProjStages);
    assert(Seq::new(cols.len(), |k: int| cols[k].name) =~= seq![
        "id"@,
        "name"@,
        "ord"@,
        "landed"@,
    ]);
    assert(write_cells(j, cols, pos) =~= seq![
        CellV::Text(str_field(j, "id"@)),
        CellV::Text(str_field(j, "name"@)),
        CellV::Int(pos as i64),
        CellV::Int(int_field(j, "landed"@)),
    ]);
    if rec.cells == write_cells(j, cols, pos) && json_back(rec, j, cols) {
        lemma_out_of_written(rec, j, cols, pos);
        assert(expected_fields(j, cols, pos) =~= seq![
            OutFieldV { key: "id"@, value: OutV::Str(str_field(j, "id"@)) },
            OutFieldV { key: "name"@, value: OutV::Str(str_field(j, "name"@)) },
            OutFieldV { key: "ord"@, value: OutV::Int(pos as i64) },
            OutFieldV { key: "landed"@, value: OutV::Int(int_field(j, "landed"@)) },
        ]);
    }
}

/// The `clients` table keeps, in this order, the JSON fields "id", "name", "color", "category":
/// its SQL columns are named as listed, a row is written from exactly
/// those fields of an item, and a row written from an item reads back as
/// an object with exactly those keys, each holding the field it was
/// written from.
pub proof fn law_clients_columns(j: JsonV, pos: int, rec: RecordV)
    ensures
        Seq::new(schema(Table::Clients).len(), |k: int| schema(Table::Clients)[k].name) == seq![
            "id"@,
            "name"@,
            "color"@,
            "category"@,
        ],
        write_cells(j, schema(Table::Clients), pos) == seq![
            CellV::Text(str_field(j, "id"@)),
            CellV::Text(str_field(j, "name"@)),
            CellV::Text(str_field(j, "color"@)),
            CellV::Text(str_field(j, "category"@)),
        ],
        rec.cells == write_cells(j, schema(Table::Clients), pos) && json_back(rec, j, schema(Table::Clients)) ==> out_fields(
            rec,
            schema(Table::Clients),
        ) == seq![
            OutFieldV { key: "id"@, value: OutV::Str(str_field(j, "id"@)) },
            OutFieldV { key: "name"@, value: OutV::Str(str_field(j, "name"@)) },
            OutFieldV { key: "color"@, value: OutV::Str(str_field(j, "color"@)) },
            OutFieldV { key: "category"@, value: OutV::Str(str_field(j, "category"@)) },
        ],
{
    let cols = schema(Table::Clients);
    assert(Seq::new(cols.len(), |k: int| cols[k].name) =~= seq![
        "id"@,
        "name"@,
        "color"@,
        "category"@,
    ]);
    assert(write_cells(j, cols, pos) =~= seq![
        CellV::Text(str_field(j, "id"@)),
        CellV::Text(str_field(j, "name"@)),
        CellV::Text(str_field(j, "color"@)),
        CellV::Text(str_field(j, "category"@)),
    ]);
    if rec.cells == write_cells(j, cols, pos) && json_back(rec, j, cols) {
        lemma_out_of_written(rec, j, cols, pos);
        assert(expected_fields(j, cols, pos) =~= seq![
            OutFieldV { key: "id"@, value: OutV::Str(str_field(j, "id"@)) },
            OutFieldV { key: "name"@, value: OutV::Str(str_field(j, "name"@)) },
            OutFieldV { key: "color"@, value: OutV::Str(str_field(j, "color"@)) },
            OutFieldV { key: "category"@, value: OutV::Str(str_field(j, "category"@)) },
        ]);
    }
}

/// The `tags` table keeps, in this order, the JSON fields "id", "name", "color", "category":
/// its SQL columns are named as listed, a row is written from exactly
/// those fields of an item, and a row written from an item reads back as
/// an object with exactly those keys, each holding the field it was
/// written from.
pub proof fn law_tags_columns(j: JsonV, pos: int, rec: RecordV)
    ensures
        Seq::new(schema(Table::Tags).len(), |k: int| schema(Table::Tags)[k].name) == seq![
            "id"@,
            "name"@,
            "color"@,
            "category"@,
        ],
        write_cells(j, schema(Table::Tags), pos) == seq![
            CellV::Text(str_field(j, "id"@)),
            CellV::Text(str_field(j, "name"@)),
            CellV::Text(str_field(j, "color"@)),
            CellV::Text(str_field(j, "category"@)),
        ],
        rec.cells == write_cells(j, schema(Table::Tags), pos) && json_back(rec, j, schema(Table::Tags)) ==> out_fields(
            rec,
            schema(Table::Tags),
        ) == seq![
            OutFieldV { key: "id"@, value: OutV::Str(str_field(j, "id"@)) },
            OutFieldV { key: "name"@, value: OutV::Str(str_field(j, "name"@)) },
            OutFieldV { key: "color"@, value: OutV::Str(str_field(j, "color"@)) },
            OutFieldV { key: "category"@, value: OutV::Str(str_field(j, "category"@)) },
        ],
{
    let cols = schema(Table::Tags);
    assert(Seq::new(cols.len(), |k: int| cols[k].name) =~= seq![
        "id"@,
        "name"@,
        "color"@,
        "category"@,
    ]);
    assert(write_cells(j, cols, pos) =~= seq![
        CellV::Text(str_field(j, "id"@)),
        CellV::Text(str_field(j, "name"@)),
        CellV::Text(str_field(j, "color"@)),
        CellV::Text(str_field(j, "category"@)),
    ]);
    if rec.cells == write_cells(j, cols, pos) && json_back(rec, j, cols) {
        lemma_out_of_written(rec, j, cols, pos);
        assert(expected_fields(j, cols, pos) =~= seq![
            OutFieldV { key: "id"@, value: OutV::Str(str_field(j, "id"@)) },
            OutFieldV { key: "name"@, value: OutV::Str(str_field(j, "name"@)) },
            OutFieldV { key: "color"@, value: OutV::Str(str_field(j, "color"@)) },
            OutFieldV { key: "category"@, value: OutV::Str(str_field(j, "category"@)) },
        ]);
    }
}

/// The `notes` table keeps, in this order, the JSON fields "id", "title", "cat", "md", "createdAt", "updatedAt", "pinned", "tags":
/// its SQL columns are named as listed, a row is written from exactly
/// those fields of an item, and a row written from an item reads back as
/// an object with exactly those keys, each holding the field it was
/// written from.
pub proof fn law_notes_columns(j: JsonV, pos: int, rec: RecordV)
    ensures
        Seq::new(schema(Table::Notes).len(), |k: int| schema(Table::Notes)[k].name) == seq![
            "id"@,
            "title"@,
            "cat"@,
            "md"@,
            "created_at"@,
            "updated_at"@,
            "pinned"@,
            "tags"@,
        ],
        write_cells(j, schema(Table::Notes), pos) == seq![
            CellV::Text(str_field(j, "id"@)),
            CellV::Text(str_field(j, "title"@)),
            CellV::Text(str_field(j, "cat"@)),
            CellV::Text(str_field(j, "md"@)),
            CellV::Int(int_field(j, "createdAt"@)),
            CellV::Int(int_field(j, "updatedAt"@)),
            CellV::Int(flag_field(j, "pinned"@)),
            CellV::Text(text_at(j, "tags"@)),
        ],
        rec.cells == write_cells(j, schema(Table::Notes), pos) && json_back(rec, j, schema(Table::Notes)) ==> out_fields(
            rec,
            schema(Table::Notes),
        ) == seq![
            OutFieldV { key: "id"@, value: OutV::Str(str_field(j, "id"@)) },
            OutFieldV { key: "title"@, value: OutV::Str(str_field(j, "title"@)) },
            OutFieldV { key: "cat"@, value: OutV::Str(str_field(j, "cat"@)) },
            OutFieldV { key: "md"@, value: OutV::Str(str_field(j, "md"@)) },
            OutFieldV { key: "createdAt"@, value: OutV::Int(int_field(j, "createdAt"@)) },
            OutFieldV { key: "updatedAt"@, value: OutV::Int(int_field(j, "updatedAt"@)) },
            OutFieldV { key: "pinned"@, value: OutV::Bool(as_bool(at(j, "pinned"@)) == Some(true)) },
            OutFieldV { key: "tags"@, value: OutV::Json(at(j, "tags"@)) },
        ],
{
    let cols = schema(Table::Notes);
    assert(Seq::new(cols.len(), |k: int| cols[k].name) =~= seq![
        "id"@,
        "title"@,
        "cat"@,
        "md"@,
        "created_at"@,
        "updated_at"@,
        "pinned"@,
        "tags"@,
    ]);
    assert(write_cells(j, cols, pos) =~= seq![
        CellV::Text(str_field(j, "id"@)),
        CellV::Text(str_field(j, "title"@)),
        CellV::Text(str_field(j, "cat"@)),
        CellV::Text(str_field(j, "md"@)),
        CellV::Int(int_field(j, "createdAt"@)),
        CellV::Int(int_field(j, "updatedAt"@)),
        CellV::Int(flag_field(j, "pinned"@)),
        CellV::Text(text_at(j, "tags"@)),
    ]);
    if rec.cells == write_cells(j, cols, pos) && json_back(rec, j, cols) {
        lemma_out_of_written(rec, j, cols, pos);
        assert(expected_fields(j, cols, pos) =~= seq![
            OutFieldV { key: "id"@, value: OutV::Str(str_field(j, "id"@)) },
            OutFieldV { key: "title"@, value: OutV::Str(str_field(j, "title"@)) },
            OutFieldV { key: "cat"@, value: OutV::Str(str_field(j, "cat"@)) },
            OutFieldV { key: "md"@, value: OutV::Str(str_field(j, "md"@)) },
            OutFieldV { key: "createdAt"@, value: OutV::Int(int_field(j, "createdAt"@)) },
            OutFieldV { key: "updatedAt"@, value: OutV::Int(int_field(j, "updatedAt"@)) },
            OutFieldV { key: "pinned"@, value: OutV::Bool(as_bool(at(j, "pinned"@)) == Some(true)) },
            OutFieldV { key: "tags"@, value: OutV::Json(at(j, "tags"@)) },
        ]);
    }
}

/// The `smart_lists` table keeps, in this order, the JSON fields "id", "name", "query":
/// its SQL columns are named as listed, a row is written from exactly
/// those fields of an item, and a row written from an item reads back as
/// an object with exactly those keys, each holding the field it was
/// written from.
pub proof fn law_smart_lists_columns(j: JsonV, pos: int, rec: RecordV)
    ensures
        Seq::new(schema(Table::SmartLists).len(), |k: int| schema(Table::SmartLists)[k].name) == seq![
            "id"@,
            "name"@,
            "query"@,
        ],
        write_cells(j, schema(Table::SmartLists), pos) == seq![
            CellV::Text(str_field(j, "id"@)),
            CellV::Text(str_field(j, "name"@)),
            CellV::Text(text_at(j, "query"@)),
        ],
        rec.cells == write_cells(j, schema(Table::SmartLists), pos) && json_back(rec, j, schema(Table::SmartLists)) ==> out_fields(
            rec,
            schema(Table::SmartLists),
        ) == seq![
            OutFieldV { key: "id"@, value: OutV::Str(str_field(j, "id"@)) },
            OutFieldV { key: "name"@, value: OutV::Str(str_field(j, "name"@)) },
            OutFieldV { key: "query"@, value: OutV::Json(at(j, "query"@)) },
        ],
{
    let cols = schema(Table::SmartLists);
    assert(Seq::new(cols.len(), |k: int| cols[k].name) =~= seq![
        "id"@,
        "name"@,
        "query"@,
    ]);
    assert(write_cells(j, cols, pos) =~= seq![
        CellV::Text(str_field(j, "id"@)),
        CellV::Text(str_field(j, "name"@)),
        CellV::Text(text_at(j, "query"@)),
    ]);
    if rec.cells == write_cells(j, cols, pos) && json_back(rec, j, cols) {
        lemma_out_of_written(rec, j, cols, pos);
        assert(expected_fields(j, cols, pos) =~= seq![
            OutFieldV { key: "id"@, value: OutV::Str(str_field(j, "id"@)) },
            OutFieldV { key: "name"@, value: OutV::Str(str_field(j, "name"@)) },
            OutFieldV { key: "query"@, value: OutV::Json(at(j, "query"@)) },
        ]);
    }
}

/// The `note_cats` table keeps, in this order, the JSON fields "name":
/// its SQL columns are named as listed, a row is written from exactly
/// those fields of an item, and a row written from an item reads back as
/// an object with exactly those keys, each holding the field it was
/// written from.
pub proof fn law_note_cats_columns(j: JsonV, pos: int, rec: RecordV)
    ensures
        Seq::new(schema(Table::NoteCats).len(), |k: int| schema(Table::NoteCats)[k].name) == seq![
            "name"@,
        ],
        write_cells(j, schema(Table::NoteCats), pos) == seq![
            CellV::Text(str_field(j, "name"@)),
        ],
        rec.cells == write_cells(j, schema(Table::NoteCats), pos) && json_back(rec, j, schema(Table::NoteCats)) ==> out_fields(
            rec,
            schema(Table::NoteCats),
        ) == seq![
            OutFieldV { key: "name"@, value: OutV::Str(str_field(j, "name"@)) },
        ],
{
    let cols = schema(Table::NoteCats);
    assert(Seq::new(cols.len(), |k: int| cols[k].name) =~= seq![
        "name"@,
    ]);
    assert(write_cells(j, cols, pos) =~= seq![
        CellV::Text(str_field(j, "name"@)),
    ]);
    if rec.cells == write_cells(j, cols, pos) && json_back(rec, j, cols) {
        lemma_out_of_written(rec, j, cols, pos);
        assert(expected_fields(j, cols, pos) =~= seq![
            OutFieldV { key: "name"@, value: OutV::Str(str_field(j, "name"@)) },
        ]);
    }
}

/// The `tasks` table keeps, in this order, the JSON fields "id", "projectId", "clientId", "title", "priority", "due", "note", "done", "doneAt", "status", "createdAt", "repeat", "waiting", "waitingFor", "waitingSince", "planned", "tags", "important", "noteId":
/// its SQL columns are named as listed, a row is written from exactly
/// those fields of an item, and a row written from an item reads back as
/// an object with exactly those keys, each holding the field it was
/// written from.
pub proof fn law_tasks_columns(j: JsonV, pos: int, rec: RecordV)
    ensures
        Seq::new(schema(Table::Tasks).len(), |k: int| schema(Table::Tasks)[k].name) == seq![
            "id"@,
            "project_id"@,
            "client_id"@,
            "title"@,
            "priority"@,
            "due"@,
            "note"@,
            "done"@,
            "done_at"@,
            "status"@,
            "created_at"@,
            "repeat"@,
            "waiting"@,
            "waiting_for"@,
            "waiting_since"@,
            "planned"@,
            "tags"@,
            "important"@,
            "note_id"@,
        ],
        write_cells(j, schema(Table::Tasks), pos) == seq![
            CellV::Text(str_field(j, "id"@)),
            CellV::Text(str_field(j, "projectId"@)),
            CellV::Text(str_field(j, "clientId"@)),
            CellV::Text(str_field(j, "title"@)),
            CellV::Text(str_field(j, "priority"@)),
            CellV::Text(str_field(j, "due"@)),
            CellV::Text(str_field(j, "note"@)),
            CellV::Int(flag_field(j, "done"@)),
            CellV::Int(int_field(j, "doneAt"@)),
            CellV::Text(str_field(j, "status"@)),
            CellV::Int(int_field(j, "createdAt"@)),
            CellV::Text(str_field(j, "repeat"@)),
            CellV::Int(flag_field(j, "waiting"@)),
            CellV::Text(str_field(j, "waitingFor"@)),
            CellV::Int(int_field(j, "waitingSince"@)),
            CellV::Int(flag_field(j, "planned"@)),
            CellV::Text(text_at(j, "tags"@)),
            CellV::Int(flag_field(j, "important"@)),
            CellV::Text(str_field(j, "noteId"@)),
        ],
        rec.cells == write_cells(j, schema(Table::Tasks), pos) && json_back(rec, j, schema(Table::Tasks)) ==> out_fields(
            rec,
            schema(Table::Tasks),
        ) == seq![
            OutFieldV { key: "id"@, value: OutV::Str(str_field(j, "id"@)) },
            OutFieldV { key: "projectId"@, value: OutV::Str(str_field(j, "projectId"@)) },
            OutFieldV { key: "clientId"@, value: OutV::Str(str_field(j, "clientId"@)) },
            OutFieldV { key: "title"@, value: OutV::Str(str_field(j, "title"@)) },
            OutFieldV { key: "priority"@, value: OutV::Str(str_field(j, "priority"@)) },
            OutFieldV { key: "due"@, value: OutV::Str(str_field(j, "due"@)) },
            OutFieldV { key: "note"@, value: OutV::Str(str_field(j, "note"@)) },
            OutFieldV { key: "done"@, value: OutV::Bool(as_bool(at(j, "done"@)) == Some(true)) },
            OutFieldV { key: "doneAt"@, value: OutV::Int(int_field(j, "doneAt"@)) },
            OutFieldV { key: "status"@, value: OutV::Str(str_field(j, "status"@)) },
            OutFieldV { key: "createdAt"@, value: OutV::Int(int_field(j, "createdAt"@)) },
            OutFieldV { key: "repeat"@, value: OutV::Str(str_field(j, "repeat"@)) },
            OutFieldV { key: "waiting"@, value: OutV::Bool(as_bool(at(j, "waiting"@)) == Some(true)) },
            OutFieldV { key: "waitingFor"@, value: OutV::Str(str_field(j, "waitingFor"@)) },
            OutFieldV { key: "waitingSince"@, value: OutV::Int(int_field(j, "waitingSince"@)) },
            OutFieldV { key: "planned"@, value: OutV::Bool(as_bool(at(j, "planned"@)) == Some(true)) },
            OutFieldV { key: "tags"@, value: OutV::Json(at(j, "tags"@)) },
            OutFieldV { key: "important"@, value: OutV::Bool(as_bool(at(j, "important"@)) == Some(true)) },
            OutFieldV { key: "noteId"@, value: OutV::Str(str_field(j, "noteId"@)) },
        ],
{
    let cols = schema(Table::Tasks);
    assert(Seq::new(cols.len(), |k: int| cols[k].name) =~= seq![
        "id"@,
        "project_id"@,
        "client_id"@,
        "title"@,
        "priority"@,
        "due"@,
        "note"@,
        "done"@,
        "done_at"@,
        "status"@,
        "created_at"@,
        "repeat"@,
        "waiting"@,
        "waiting_for"@,
        "waiting_since"@,
        "planned"@,
        "tags"@,
        "important"@,
        "note_id"@,
    ]);
    assert(write_cells(j, cols, pos) =~= seq![
        CellV::Text(str_field(j, "id"@)),
        CellV::Text(str_field(j, "projectId"@)),
        CellV::Text(str_field(j, "clientId"@)),
        CellV::Text(str_field(j, "title"@)),
        CellV::Text(str_field(j, "priority"@)),
        CellV::Text(str_field(j, "due"@)),
        CellV::Text(str_field(j, "note"@)),
        CellV::Int(flag_field(j, "done"@)),
        CellV::Int(int_field(j, "doneAt"@)),
        CellV::Text(str_field(j, "status"@)),
        CellV::Int(int_field(j, "createdAt"@)),
        CellV::Text(str_field(j, "repeat"@)),
        CellV::Int(flag_field(j, "waiting"@)),
        CellV::Text(str_field(j, "waitingFor"@)),
        CellV::Int(int_field(j, "waitingSince"@)),
        CellV::Int(flag_field(j, "planned"@)),
        CellV::Text(text_at(j, "tags"@)),
        CellV::Int(flag_field(j, "important"@)),
        CellV::Text(str_field(j, "noteId"@)),
    ]);
    if rec.cells == write_cells(j, cols, pos) && json_back(rec, j, cols) {
        lemma_out_of_written(rec, j, cols, pos);
        assert(expected_fields(j, cols, pos) =~= seq![
            OutFieldV { key: "id"@, value: OutV::Str(str_field(j, "id"@)) },
            OutFieldV { key: "projectId"@, value: OutV::Str(str_field(j, "projectId"@)) },
            OutFieldV { key: "clientId"@, value: OutV::Str(str_field(j, "clientId"@)) },
            OutFieldV { key: "title"@, value: OutV::Str(str_field(j, "title"@)) },
            OutFieldV { key: "priority"@, value: OutV::Str(str_field(j, "priority"@)) },
            OutFieldV { key: "due"@, value: OutV::Str(str_field(j, "due"@)) },
            OutFieldV { key: "note"@, value: OutV::Str(str_field(j, "note"@)) },
            OutFieldV { key: "done"@, value: OutV::Bool(as_bool(at(j, "done"@)) == Some(true)) },
            OutFieldV { key: "doneAt"@, value: OutV::Int(int_field(j, "doneAt"@)) },
            OutFieldV { key: "status"@, value: OutV::Str(str_field(j, "status"@)) },
            OutFieldV { key: "createdAt"@, value: OutV::Int(int_field(j, "createdAt"@)) },
            OutFieldV { key: "repeat"@, value: OutV::Str(str_field(j, "repeat"@)) },
            OutFieldV { key: "waiting"@, value: OutV::Bool(as_bool(at(j, "waiting"@)) == Some(true)) },
            OutFieldV { key: "waitingFor"@, value: OutV::Str(str_field(j, "waitingFor"@)) },
            OutFieldV { key: "waitingSince"@, value: OutV::Int(int_field(j, "waitingSince"@)) },
            OutFieldV { key: "planned"@, value: OutV::Bool(as_bool(at(j, "planned"@)) == Some(true)) },
            OutFieldV { key: "tags"@, value: OutV::Json(at(j, "tags"@)) },
            OutFieldV { key: "important"@, value: OutV::Bool(as_bool(at(j, "important"@)) == Some(true)) },
            OutFieldV { key: "noteId"@, value: OutV::Str(str_field(j, "noteId"@)) },
        ]);
    }
}

/// The `subtasks` table keeps, in this order, the JSON fields "id", "title", "done", "doneAt", "due", "priority", "noteId", "status":
/// its SQL columns are named as listed, a row is written from exactly
/// those fields of an item, and a row written from an item reads back as
/// an object with exactly those keys, each holding the field it was
/// written from.
pub proof fn law_subtasks_columns(j: JsonV, pos: int, rec: RecordV)
    ensures
        Seq::new(schema(Table::Subtasks).len(), |k: int| schema(Table::Subtasks)[k].name) == seq![
            "id"@,
            "title"@,
            "done"@,
            "done_at"@,
            "due"@,
            "priority"@,
            "note_id"@,
            "status"@,
        ],
        write_cells(j, schema(Table::Subtasks), pos) == seq![
            CellV::Text(str_field(j, "id"@)),
            CellV::Text(str_field(j, "title"@)),
            CellV::Int(flag_field(j, "done"@)),
            CellV::Int(int_field(j, "doneAt"@)),
            CellV::Text(str_field(j, "due"@)),
            CellV::Text(str_field(j, "priority"@)),
            CellV::Text(str_field(j, "noteId"@)),
            CellV::Text(str_field(j, "status"@)),
        ],
        rec.cells == write_cells(j, schema(Table::Subtasks), pos) && json_back(rec, j, schema(Table::Subtasks)) ==> out_fields(
            rec,
            schema(Table::Subtasks),
        ) == seq![
            OutFieldV { key: "id"@, value: OutV::Str(str_field(j, "id"@)) },
            OutFieldV { key: "title"@, value: OutV::Str(str_field(j, "title"@)) },
            OutFieldV { key: "done"@, value: OutV::Bool(as_bool(at(j, "done"@)) == Some(true)) },
            OutFieldV { key: "doneAt"@, value: OutV::Int(int_field(j, "doneAt"@)) },
            OutFieldV { key: "due"@, value: OutV::Str(str_field(j, "due"@)) },
            OutFieldV { key: "priority"@, value: OutV::Str(str_field(j, "priority"@)) },
            OutFieldV { key: "noteId"@, value: OutV::Str(str_field(j, "noteId"@)) },
            OutFieldV { key: "status"@, value: OutV::Str(str_field(j, "status"@)) },
        ],
{
    let cols = schema(Table::Subtasks);
    assert(Seq::new(cols.len(), |k: int| cols[k].name) =~= seq![
        "id"@,
        "title"@,
        "done"@,
        "done_at"@,
        "due"@,
        "priority"@,
        "note_id"@,
        "status"@,
    ]);
    assert(write_cells(j, cols, pos) =~= seq![
        CellV::Text(str_field(j, "id"@)),
        CellV::Text(str_field(j, "title"@)),
        CellV::Int(flag_field(j, "done"@)),
        CellV::Int(int_field(j, "doneAt"@)),
        CellV::Text(str_field(j, "due"@)),
        CellV::Text(str_field(j, "priority"@)),
        CellV::Text(str_field(j, "noteId"@)),
        CellV::Text(str_field(j, "status"@)),
    ]);
    if rec.cells == write_cells(j, cols, pos) && json_back(rec, j, cols) {
        lemma_out_of_written(rec, j, cols, pos);
        assert(expected_fields(j, cols, pos) =~= seq![
            OutFieldV { key: "id"@, value: OutV::Str(str_field(j, "id"@)) },
            OutFieldV { key: "title"@, value: OutV::Str(str_field(j, "title"@)) },
            OutFieldV { key: "done"@, value: OutV::Bool(as_bool(at(j, "done"@)) == Some(true)) },
            OutFieldV { key: "doneAt"@, value: OutV::Int(int_field(j, "doneAt"@)) },
            OutFieldV { key: "due"@, value: OutV::Str(str_field(j, "due"@)) },
            OutFieldV { key: "priority"@, value: OutV::Str(str_field(j, "priority"@)) },
            OutFieldV { key: "noteId"@, value: OutV::Str(str_field(j, "noteId"@)) },
            OutFieldV { key: "status"@, value: OutV::Str(str_field(j, "status"@)) },
        ]);
    }
}

/// The `logs` table keeps, in this order, the JSON fields "id", "at", "text":
/// its SQL columns are named as listed, a row is written from exactly
/// those fields of an item, and a row written from an item reads back as
/// an object with exactly those keys, each holding the field it was
/// written from.
pub proof fn law_logs_columns(j: JsonV, pos: int, rec: RecordV)
    ensures
        Seq::new(schema(Table::Logs).len(), |k: int| schema(Table::Logs)[k].name) == seq![
            "id"@,
            "at"@,
            "text"@,
        ],
        write_cells(j, schema(Table::Logs), pos) == seq![
            CellV::Text(str_field(j, "id"@)),
            CellV::Int(int_field(j, "at"@)),
            CellV::Text(str_field(j, "text"@)),
        ],
        rec.cells == write_cells(j, schema(Table::Logs), pos) && json_back(rec, j, schema(Table::Logs)) ==> out_fields(
            rec,
            schema(Table::Logs),
        ) == seq![
            OutFieldV { key: "id"@, value: OutV::Str(str_field(j, "id"@)) },
            OutFieldV { key: "at"@, value: OutV::Int(int_field(j, "at"@)) },
            OutFieldV { key: "text"@, value: OutV::Str(str_field(j, "text"@)) },
        ],
{
    let cols = schema(Table::Logs);
    assert(Seq::new(cols.len(), |k: int| cols[k].name) =~= seq![
        "id"@,
        "at"@,
        "text"@,
    ]);
    assert(write_cells(j, cols, pos) =~= seq![
        CellV::Text(str_field(j, "id"@)),
        CellV::Int(int_field(j, "at"@)),
        CellV::Text(str_field(j, "text"@)),
    ]);
    if rec.cells == write_cells(j, cols, pos) && json_back(rec, j, cols) {
        lemma_out_of_written(rec, j, cols, pos);
        assert(expected_fields(j, cols, pos) =~= seq![
            OutFieldV { key: "id"@, value: OutV::Str(str_field(j, "id"@)) },
            OutFieldV { key: "at"@, value: OutV::Int(int_field(j, "at"@)) },
            OutFieldV { key: "text"@, value: OutV::Str(str_field(j, "text"@)) },
        ]);
    }
}

/// The `app_meta` table keeps, in this order, the JSON fields "k", "v":
/// its SQL columns are named as listed, a row is written from exactly
/// those fields of an item, and a row written from an item reads back as
/// an object with exactly those keys, each holding the field it was
/// written from.
pub proof fn law_app_meta_columns(j: JsonV, pos: int, rec: RecordV)
    ensures
        Seq::new(schema(Table::AppMeta).len(), |k: int| schema(Table::AppMeta)[k].name) == seq![
            "k"@,
            "v"@,
        ],
        write_cells(j, schema(Table::AppMeta), pos) == seq![
            CellV::Text(str_field(j, "k"@)),
            CellV::Text(str_field(j, "v"@)),
        ],
        rec.cells == write_cells(j, schema(Table::AppMeta), pos) && json_back(rec, j, schema(Table::AppMeta)) ==> out_fields(
            rec,
            schema(Table::AppMeta),
        ) == seq![
            OutFieldV { key: "k"@, value: OutV::Str(str_field(j, "k"@)) },
            OutFieldV { key: "v"@, value: OutV::Str(str_field(j, "v"@)) },
        ],
{
    let cols = schema(Table::AppMeta);
    assert(Seq::new(cols.len(), |k: int| cols[k].name) =~= seq![
        "k"@,
        "v"@,
    ]);
    assert(write_cells(j, cols, pos) =~= seq![
        CellV::Text(str_field(j, "k"@)),
        CellV::Text(str_field(j, "v"@)),
    ]);
    if rec.cells == write_cells(j, cols, pos) && json_back(rec, j, cols) {
        lemma_out_of_written(rec, j, cols, pos);
        assert(expected_fields(j, cols, pos) =~= seq![
            OutFieldV { key: "k"@, value: OutV::Str(str_field(j, "k"@)) },
            OutFieldV { key: "v"@, value: OutV::Str(str_field(j, "v"@)) },
        ]);
    }
}

} // verus!
