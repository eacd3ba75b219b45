//! Reassembling the whole document from the stored rows.

use vstd::prelude::*;
use crate::json::{Json, JsonV};
use crate::out::{Out, OutField, OutFieldV, OutV, field_views, list, object, out_views};
use crate::save::{ChildRecord, ChildV, Snapshot, SnapshotV, child_views, record_id};
use crate::schema::{
    Column, ColumnV, Record, RecordV, Table, column_views, out_fields, out_row, record_views,
    schema, text_cell, text_in,
};
use crate::text::owned;

verus! {

/// The objects a table's stored rows become, in stored order.
pub open spec fn rows_out(recs: Seq<RecordV>, cols: Seq<ColumnV>) -> Seq<OutV> {
    Seq::new(recs.len(), |i: int| OutV::Obj(out_fields(recs[i], cols)))
}

/// The objects a task's children become, in stored order.
pub open spec fn child_outs(ch: Seq<ChildV>, tid: Seq<char>, cols: Seq<ColumnV>) -> Seq<OutV>
    decreases ch.len(),
{
    if ch.len() == 0 {
        Seq::empty()
    } else {
        let rest = child_outs(ch.drop_last(), tid, cols);
        if ch.last().task_id == tid {
            rest.push(OutV::Obj(out_fields(ch.last().record, cols)))
        } else {
            rest
        }
    }
}

/// The object a stored task becomes, with its subtasks and logs.
pub open spec fn task_out(rec: RecordV, cur: SnapshotV) -> OutV {
    OutV::Obj(
        out_fields(rec, schema(Table::Tasks)) + seq![
            OutFieldV {
                key: "subtasks"@,
                value: OutV::List(child_outs(cur.subtasks, record_id(rec), schema(Table::Subtasks))),
            },
            OutFieldV {
                key: "logs"@,
                value: OutV::List(child_outs(cur.logs, record_id(rec), schema(Table::Logs))),
            },
        ],
    )
}

pub open spec fn tasks_out(cur: SnapshotV) -> Seq<OutV> {
    Seq::new(cur.tasks.len(), |i: int| task_out(cur.tasks[i], cur))
}

pub open spec fn note_cats_out(recs: Seq<RecordV>) -> Seq<OutV> {
    Seq::new(recs.len(), |i: int| OutV::Str(text_cell(recs[i].cells, 0)))
}

/// The position of the first entry with key `k`.
pub open spec fn key_index(es: Seq<OutFieldV>, k: Seq<char>) -> Option<int>
    decreases es.len(),
{
    if es.len() == 0 {
        None
    } else if es[0].key == k {
        Some(0)
    } else {
        match key_index(es.drop_first(), k) {
            Some(i) => Some(i + 1),
            None => None,
        }
    }
}

/// Setting key `k` to `v`: replaces the entry for `k`, or adds one at the end.
pub open spec fn put(es: Seq<OutFieldV>, k: Seq<char>, v: OutV) -> Seq<OutFieldV> {
    match key_index(es, k) {
        Some(i) => es.update(i, OutFieldV { key: k, value: v }),
        None => es.push(OutFieldV { key: k, value: v }),
    }
}

/// A stored meta value: its parse, or the text itself when it does not
/// parse.
pub open spec fn meta_value(rec: RecordV) -> OutV {
    match rec.json {
        Some(p) => OutV::Json(p.0),
        None => OutV::Json(JsonV::Str(text_cell(rec.cells, 1))),
    }
}

/// The entries after setting every stored meta value, in stored order.
pub open spec fn with_meta(es: Seq<OutFieldV>, recs: Seq<RecordV>) -> Seq<OutFieldV>
    decreases recs.len(),
{
    if recs.len() == 0 {
        es
    } else {
        put(with_meta(es, recs.drop_last()), text_cell(recs.last().cells, 0), meta_value(recs.last()))
    }
}

/// The preferences used when none are stored.
pub open spec fn default_prefs() -> OutV {
    OutV::Obj(
        seq![
            OutFieldV { key: "pid"@, value: OutV::Str(Seq::empty()) },
            OutFieldV { key: "pri"@, value: OutV::Str("P2"@) },
        ],
    )
}

/// The members of the reassembled document: `version` 1 and `seeded`
/// false unless stored otherwise, the stored meta values, every collection,
/// and default preferences when none are stored.
pub open spec fn doc_entries(cur: SnapshotV) -> Seq<OutFieldV> {
    let e0 = seq![
        OutFieldV { key: "version"@, value: OutV::Int(1) },
        OutFieldV { key: "seeded"@, value: OutV::Bool(false) },
    ];
    let e1 = with_meta(e0, cur.meta);
    let e2 = put(e1, "projects"@, OutV::List(rows_out(cur.projects, schema(Table::Projects))));
    let e3 = put(e2, "projStages"@, OutV::List(rows_out(cur.proj_stages, schema(Table::ProjStages))));
    let e4 = put(e3, "clients"@, OutV::List(rows_out(cur.clients, schema(Table::Clients))));
    let e5 = put(e4, "tags"@, OutV::List(rows_out(cur.tags, schema(Table::Tags))));
    let e6 = put(e5, "notes"@, OutV::List(rows_out(cur.notes, schema(Table::Notes))));
    let e7 = put(e6, "smartLists"@, OutV::List(rows_out(cur.smart_lists, schema(Table::SmartLists))));
    let e8 = put(e7, "noteCats"@, OutV::List(note_cats_out(cur.note_cats)));
    let e9 = put(e8, "tasks"@, OutV::List(tasks_out(cur)));
    if key_index(e9, "prefs"@) is Some {
        e9
    } else {
        put(e9, "prefs"@, default_prefs())
    }
}

/// Whether anything worth loading is stored: a task, project, client, tag,
/// note or smart list.
pub open spec fn has_data(cur: SnapshotV) -> bool {
    cur.tasks.len() > 0 || cur.projects.len() > 0 || cur.clients.len() > 0 || cur.tags.len() > 0
        || cur.notes.len() > 0 || cur.smart_lists.len() > 0
}

/// The reassembled document, or none when nothing worth loading is stored.
pub open spec fn load_doc(cur: SnapshotV) -> Option<OutV> {
    if has_data(cur) {
        Some(OutV::Obj(doc_entries(cur)))
    } else {
        None
    }
}

fn find_key(es: &Vec<OutField>, k: &str) -> (r: Option<usize>)
    ensures
        r matches Some(i) ==> key_index(field_views(es@), k@) == Some(i as int) && i < es@.len(),
        r is None ==> key_index(field_views(es@), k@) is None,
{
    let ghost ev = field_views(es@);
    assert(ev.skip(0) =~= ev);
    let mut i: usize = 0;
    while i < es.len()
        invariant
            i <= es@.len(),
            ev == field_views(es@),
            forall|m: int| 0 <= m < i ==> (#[trigger] ev[m]).key != k@,
            key_index(ev, k@) == shift(key_index(ev.skip(i as int), k@), i as int),
        decreases es.len() - i,
    {
        assert(ev.skip(i as int)[0] == ev[i as int]);
        assert(ev.skip(i as int).drop_first() =~= ev.skip(i + 1));
        assert(ev[i as int] == es@[i as int]@);
        if crate::text::str_equal(es[i].key.as_str(), k) {
            return Some(i);
        }
        i = i + 1;
    }
    assert(ev.skip(i as int).len() == 0);
    None
}

/// `map` on an optional position, shifted by `n`.
pub open spec fn shift(o: Option<int>, n: int) -> Option<int> {
    match o {
        Some(i) => Some(i + n),
        None => None,
    }
}

} // verus!

verus! {

/// Sets key `k` to `v` (see [`put`]).
pub fn put_field(es: &mut Vec<OutField>, k: &str, v: Out)
    ensures
        field_views(final(es)@) == put(field_views(old(es)@), k@, v@),
{
    let f = OutField { key: owned(k), value: v };
    match find_key(es, k) {
        Some(i) => {
            es.set(i, f);
            assert(field_views(es@) =~= put(field_views(old(es)@), k@, v@));
        },
        None => {
            es.push(f);
            assert(field_views(es@) =~= put(field_views(old(es)@), k@, v@));
        },
    }
}

fn meta_out(rec: &Record) -> (r: (String, Out))
    ensures
        r.0@ == text_cell(rec@.cells, 0),
        r.1@ == meta_value(rec@),
{
    let k = text_in(&rec.cells, 0);
    let v = match &rec.json {
        Some(p) => Out::Json(p.value.deep_clone()),
        None => Out::Json(Json::Str(text_in(&rec.cells, 1))),
    };
    (k, v)
}

/// The objects a table's stored rows become.
pub fn table_out(recs: &Vec<Record>, cols: &Vec<Column>) -> (r: Out)
    ensures
        r@ == OutV::List(rows_out(record_views(recs@), column_views(cols@))),
{
    let mut out: Vec<Out> = Vec::new();
    let mut i: usize = 0;
    while i < recs.len()
        invariant
            i <= recs@.len(),
            out@.len() == i,
            forall|m: int|
                0 <= m < i ==> #[trigger] out@[m]@ == OutV::Obj(out_fields(recs@[m]@, column_views(cols@))),
        decreases recs.len() - i,
    {
        let fs = out_row(&recs[i], cols);
        out.push(object(fs));
        i = i + 1;
    }
    let r = list(out);
    assert(out_views(out@) =~= rows_out(record_views(recs@), column_views(cols@)));
    r
}

/// The objects a task's children become.
pub fn children_out(ch: &Vec<ChildRecord>, tid: &String, cols: &Vec<Column>) -> (r: Out)
    ensures
        r@ == OutV::List(child_outs(child_views(ch@), tid@, column_views(cols@))),
{
    let ghost cv = child_views(ch@);
    let mut out: Vec<Out> = Vec::new();
    let mut i: usize = 0;
    while i < ch.len()
        invariant
            i <= ch@.len(),
            cv == child_views(ch@),
            out_views(out@) == child_outs(cv.take(i as int), tid@, column_views(cols@)),
        decreases ch.len() - i,
    {
        proof {
            assert(cv.take(i + 1).drop_last() =~= cv.take(i as int));
            assert(cv.take(i + 1).last() == cv[i as int]);
        }
        if ch[i].task_id.eq(tid) {
            let fs = out_row(&ch[i].record, cols);
            out.push(object(fs));
        }
        assert(out_views(out@) =~= child_outs(cv.take(i + 1), tid@, column_views(cols@)));
        i = i + 1;
    }
    assert(cv.take(ch@.len() as int) =~= cv);
    list(out)
}

/// The objects the stored tasks become.
pub fn tasks_out_exec(cur: &Snapshot) -> (r: Out)
    ensures
        r@ == OutV::List(tasks_out(cur@)),
{
    let task_cols = Table::Tasks.columns();
    let sub_cols = Table::Subtasks.columns();
    let log_cols = Table::Logs.columns();
    let mut out: Vec<Out> = Vec::new();
    let mut i: usize = 0;
    while i < cur.tasks.len()
        invariant
            i <= cur.tasks@.len(),
            out@.len() == i,
            column_views(task_cols@) == schema(Table::Tasks),
            column_views(sub_cols@) == schema(Table::Subtasks),
            column_views(log_cols@) == schema(Table::Logs),
            forall|m: int| 0 <= m < i ==> #[trigger] out@[m]@ == task_out(cur@.tasks[m], cur@),
        decreases cur.tasks.len() - i,
    {
        let rec = &cur.tasks[i];
        let id = text_in(&rec.cells, 0);
        let mut fs = out_row(rec, &task_cols);
        let ghost base = field_views(fs@);
        fs.push(OutField { key: owned("subtasks"), value: children_out(&cur.subtasks, &id, &sub_cols) });
        fs.push(OutField { key: owned("logs"), value: children_out(&cur.logs, &id, &log_cols) });
        let o = object(fs);
        proof {
            assert(cur@.tasks[i as int] == rec@);
            assert(field_views(fs@) =~= base + seq![
                OutFieldV {
                    key: "subtasks"@,
                    value: OutV::List(child_outs(cur@.subtasks, record_id(rec@), schema(Table::Subtasks))),
                },
                OutFieldV {
                    key: "logs"@,
                    value: OutV::List(child_outs(cur@.logs, record_id(rec@), schema(Table::Logs))),
                },
            ]);
        }
        out.push(o);
        i = i + 1;
    }
    let r = list(out);
    assert(out_views(out@) =~= tasks_out(cur@));
    r
}

fn note_cats_out_exec(recs: &Vec<Record>) -> (r: Out)
    ensures
        r@ == OutV::List(note_cats_out(record_views(recs@))),
{
    let mut out: Vec<Out> = Vec::new();
    let mut i: usize = 0;
    while i < recs.len()
        invariant
            i <= recs@.len(),
            out@.len() == i,
            forall|m: int|
                0 <= m < i ==> #[trigger] out@[m]@ == OutV::Str(text_cell(recs@[m]@.cells, 0)),
        decreases recs.len() - i,
    {
        out.push(Out::Str(text_in(&recs[i].cells, 0)));
        i = i + 1;
    }
    let r = list(out);
    assert(out_views(out@) =~= note_cats_out(record_views(recs@)));
    r
}

/// Whether anything worth loading is stored (see [`has_data`]).
pub fn has_data_exec(cur: &Snapshot) -> (r: bool)
    ensures
        r == has_data(cur@),
{
    cur.tasks.len() > 0 || cur.projects.len() > 0 || cur.clients.len() > 0 || cur.tags.len() > 0
        || cur.notes.len() > 0 || cur.smart_lists.len() > 0
}

fn default_prefs_exec() -> (r: Out)
    ensures
        r@ == default_prefs(),
{
    let mut fs: Vec<OutField> = Vec::new();
    fs.push(OutField { key: owned("pid"), value: Out::Str(String::new()) });
    fs.push(OutField { key: owned("pri"), value: Out::Str(owned("P2")) });
    let r = object(fs);
    assert(field_views(fs@) =~= seq![
        OutFieldV { key: "pid"@, value: OutV::Str(Seq::empty()) },
        OutFieldV { key: "pri"@, value: OutV::Str("P2"@) },
    ]);
    r
}

/// The document reassembled from the stored rows (see [`load_doc`]): none
/// when nothing worth loading is stored.
pub fn load_main(cur: &Snapshot) -> (r: Option<Out>)
    ensures
        r is Some <==> has_data(cur@),
        r matches Some(o) ==> o@ == OutV::Obj(doc_entries(cur@)),
{
    if !has_data_exec(cur) {
        return None;
    }
    let mut es: Vec<OutField> = Vec::new();
    es.push(OutField { key: owned("version"), value: Out::Int(1) });
    es.push(OutField { key: owned("seeded"), value: Out::Bool(false) });
    let ghost e0 = seq![
        OutFieldV { key: "version"@, value: OutV::Int(1) },
        OutFieldV { key: "seeded"@, value: OutV::Bool(false) },
    ];
    assert(field_views(es@) =~= e0);
    let ghost mv = record_views(cur.meta@);
    let mut i: usize = 0;
    while i < cur.meta.len()
        invariant
            i <= cur.meta@.len(),
            mv == record_views(cur.meta@),
            field_views(es@) == with_meta(e0, mv.take(i as int)),
        decreases cur.meta.len() - i,
    {
        proof {
            assert(mv.take(i + 1).drop_last() =~= mv.take(i as int));
            assert(mv.take(i + 1).last() == mv[i as int]);
        }
        let (k, v) = meta_out(&cur.meta[i]);
        put_field(&mut es, k.as_str(), v);
        i = i + 1;
    }
    assert(mv.take(cur.meta@.len() as int) =~= mv);
    put_field(&mut es, "projects", table_out(&cur.projects, &Table::Projects.columns()));
    put_field(&mut es, "projStages", table_out(&cur.proj_stages, &Table::ProjStages.columns()));
    put_field(&mut es, "clients", table_out(&cur.clients, &Table::Clients.columns()));
    put_field(&mut es, "tags", table_out(&cur.tags, &Table::Tags.columns()));
    put_field(&mut es, "notes", table_out(&cur.notes, &Table::Notes.columns()));
    put_field(&mut es, "smartLists", table_out(&cur.smart_lists, &Table::SmartLists.columns()));
    put_field(&mut es, "noteCats", note_cats_out_exec(&cur.note_cats));
    put_field(&mut es, "tasks", tasks_out_exec(cur));
    if find_key(&es, "prefs").is_none() {
        put_field(&mut es, "prefs", default_prefs_exec());
    }
    Some(object(es))
}

} // verus!
