//! Saving documents into, and loading them back from, a store held in
//! memory that carries out a save plan the way the SQLite tables do.

use serde_json::Value;
use taskdeck::json::{Json, JsonText, Member, NumKind, Number};
use taskdeck::load::load_main;
use taskdeck::out::Out;
use taskdeck::save::{save_main, ChildRecord, SavePlan, Snapshot, TablePlan};
use taskdeck::schema::{Cell, ColKind, Record, Table};
use taskdeck::setup::{
    has_column, init_schema, needs_stage_seed, should_migrate, stage_seeds, store_route, SchemaStep,
    StoreRoute,
};

// ---------------------------------------------------------------------
// JSON in and out.

fn to_json(v: &Value) -> Json {
    match v {
        Value::Null => Json::Null,
        Value::Bool(b) => Json::Bool(*b),
        Value::Number(n) => {
            let kind = if let Some(u) = n.as_u64() {
                NumKind::PosInt(u)
            } else if let Some(i) = n.as_i64() {
                NumKind::NegInt(i)
            } else {
                NumKind::Float(n.as_f64().unwrap_or(0.0).to_bits())
            };
            Json::Num(Number { kind, f64_bits: n.as_f64().unwrap_or(0.0).to_bits() })
        }
        Value::String(s) => Json::Str(s.clone()),
        Value::Array(a) => Json::Arr(a.iter().map(to_json).collect()),
        Value::Object(m) => Json::Obj(
            m.iter()
                .map(|(k, x)| Member { key: k.clone(), value: to_json(x), text: x.to_string() })
                .collect(),
        ),
    }
}

fn from_json(j: &Json) -> Value {
    match j {
        Json::Null => Value::Null,
        Json::Bool(b) => Value::Bool(*b),
        Json::Num(n) => match n.kind {
            NumKind::PosInt(u) => Value::from(u),
            NumKind::NegInt(i) => Value::from(i),
            NumKind::Float(b) => Value::from(f64::from_bits(b)),
        },
        Json::Str(s) => Value::String(s.clone()),
        Json::Arr(a) => Value::Array(a.iter().map(from_json).collect()),
        Json::Obj(ms) => {
            let mut m = serde_json::Map::new();
            for x in ms {
                m.insert(x.key.clone(), from_json(&x.value));
            }
            Value::Object(m)
        }
    }
}

fn from_out(o: &Out) -> Value {
    match o {
        Out::Bool(b) => Value::Bool(*b),
        Out::Int(i) => Value::from(*i),
        Out::Real(b) => Value::from(f64::from_bits(*b)),
        Out::Str(s) => Value::String(s.clone()),
        Out::Json(j) => from_json(j),
        Out::List(v) => Value::Array(v.iter().map(from_out).collect()),
        Out::Obj(fs) => {
            let mut m = serde_json::Map::new();
            for f in fs {
                m.insert(f.key.clone(), from_out(&f.value));
            }
            Value::Object(m)
        }
    }
}

fn parse(text: &str) -> Value {
    serde_json::from_str(text).unwrap()
}

// ---------------------------------------------------------------------
// A store in memory.

struct Stored {
    task_id: String,
    cells: Vec<Cell>,
    sort: i64,
}

struct Store {
    projects: Vec<Stored>,
    proj_stages: Vec<Stored>,
    clients: Vec<Stored>,
    tags: Vec<Stored>,
    notes: Vec<Stored>,
    smart_lists: Vec<Stored>,
    note_cats: Vec<Stored>,
    tasks: Vec<Stored>,
    subtasks: Vec<Stored>,
    logs: Vec<Stored>,
    meta: Vec<Stored>,
    raw: Vec<(String, String)>,
}

fn new_store() -> Store {
    Store {
        projects: Vec::new(),
        proj_stages: Vec::new(),
        clients: Vec::new(),
        tags: Vec::new(),
        notes: Vec::new(),
        smart_lists: Vec::new(),
        note_cats: Vec::new(),
        tasks: Vec::new(),
        subtasks: Vec::new(),
        logs: Vec::new(),
        meta: Vec::new(),
        raw: Vec::new(),
    }
}

fn dup(c: &Cell) -> Cell {
    match c {
        Cell::Text(s) => Cell::Text(s.clone()),
        Cell::Int(i) => Cell::Int(*i),
        Cell::Real(b) => Cell::Real(*b),
    }
}

fn text_of(cells: &[Cell], k: usize) -> String {
    match cells.get(k) {
        Some(Cell::Text(s)) => s.clone(),
        _ => String::new(),
    }
}

fn int_of(cells: &[Cell], k: usize) -> i64 {
    match cells.get(k) {
        Some(Cell::Int(i)) => *i,
        _ => 0,
    }
}

/// `INSERT OR REPLACE`, keyed by the first cell.
fn upsert(rows: &mut Vec<Stored>, task_id: &str, cells: Vec<Cell>, sort: i64) {
    let key = text_of(&cells, 0);
    rows.retain(|r| text_of(&r.cells, 0) != key);
    rows.push(Stored { task_id: task_id.to_string(), cells, sort });
}

fn delete(rows: &mut Vec<Stored>, id: &str) {
    rows.retain(|r| text_of(&r.cells, 0) != id);
}

fn apply_table(rows: &mut Vec<Stored>, plan: TablePlan) {
    for id in &plan.deletes {
        delete(rows, id);
    }
    for u in plan.upserts {
        upsert(rows, "", u.row.cells, u.sort_idx);
    }
}

fn apply(store: &mut Store, plan: SavePlan) {
    apply_table(&mut store.projects, plan.projects);
    apply_table(&mut store.proj_stages, plan.proj_stages);
    apply_table(&mut store.clients, plan.clients);
    apply_table(&mut store.tags, plan.tags);
    apply_table(&mut store.notes, plan.notes);
    apply_table(&mut store.smart_lists, plan.smart_lists);
    store.note_cats.clear();
    for u in plan.note_cats {
        upsert(&mut store.note_cats, "", u.row.cells, u.sort_idx);
    }
    for id in &plan.task_deletes {
        delete(&mut store.tasks, id);
        store.subtasks.retain(|s| &s.task_id != id);
        store.logs.retain(|s| &s.task_id != id);
    }
    for w in plan.task_writes {
        let tid = text_of(&w.row.cells, 0);
        upsert(&mut store.tasks, "", w.row.cells, w.sort_idx);
        store.subtasks.retain(|s| s.task_id != tid);
        for (j, r) in w.subtasks.into_iter().enumerate() {
            upsert(&mut store.subtasks, &tid, r.cells, j as i64);
        }
        store.logs.retain(|s| s.task_id != tid);
        for r in w.logs {
            upsert(&mut store.logs, &tid, r.cells, 0);
        }
    }
    for r in plan.meta {
        upsert(&mut store.meta, "", r.cells, 0);
    }
}

fn parse_text(text: &str) -> Option<JsonText> {
    serde_json::from_str::<Value>(text)
        .ok()
        .map(|v| JsonText { value: to_json(&v), text: v.to_string() })
}

fn record(s: &Stored, json_col: Option<usize>) -> Record {
    Record {
        cells: s.cells.iter().map(dup).collect(),
        json: json_col.and_then(|k| parse_text(&text_of(&s.cells, k))),
    }
}

fn read(rows: &[Stored], json_col: Option<usize>, order: fn(&Stored) -> (String, i64)) -> Vec<Record> {
    let mut idx: Vec<usize> = (0..rows.len()).collect();
    idx.sort_by_key(|&i| order(&rows[i]));
    idx.iter().map(|&i| record(&rows[i], json_col)).collect()
}

fn read_children(rows: &[Stored], order: fn(&Stored) -> (String, i64)) -> Vec<ChildRecord> {
    let mut idx: Vec<usize> = (0..rows.len()).collect();
    idx.sort_by_key(|&i| order(&rows[i]));
    idx.iter()
        .map(|&i| ChildRecord { task_id: rows[i].task_id.clone(), record: record(&rows[i], None) })
        .collect()
}

fn by_sort(s: &Stored) -> (String, i64) {
    (String::new(), s.sort)
}

fn by_ord(s: &Stored) -> (String, i64) {
    (String::new(), int_of(&s.cells, 2))
}

fn by_task_sort(s: &Stored) -> (String, i64) {
    (s.task_id.clone(), s.sort)
}

fn by_task_at(s: &Stored) -> (String, i64) {
    (s.task_id.clone(), int_of(&s.cells, 1))
}

fn unordered(_s: &Stored) -> (String, i64) {
    (String::new(), 0)
}

fn snapshot(store: &Store) -> Snapshot {
    Snapshot {
        meta: read(&store.meta, Some(1), unordered),
        projects: read(&store.projects, None, by_sort),
        proj_stages: read(&store.proj_stages, None, by_ord),
        clients: read(&store.clients, None, by_sort),
        tags: read(&store.tags, None, by_sort),
        notes: read(&store.notes, Some(7), by_sort),
        smart_lists: read(&store.smart_lists, Some(2), by_sort),
        note_cats: read(&store.note_cats, None, by_sort),
        tasks: read(&store.tasks, Some(16), by_sort),
        subtasks: read_children(&store.subtasks, by_task_sort),
        logs: read_children(&store.logs, by_task_at),
    }
}

fn save(store: &mut Store, doc: &Value) {
    let plan = save_main(&to_json(doc), &snapshot(store));
    apply(store, plan);
}

fn load(store: &Store) -> Option<Value> {
    load_main(&snapshot(store)).map(|o| from_out(&o))
}

fn find<'a>(items: &'a Value, id: &str) -> &'a Value {
    items.as_array().unwrap().iter().find(|t| t["id"].as_str() == Some(id)).unwrap()
}

/// A row read from an older table: every column as SQL `NULL` reads.
fn blank(table: Table, id: &str) -> Vec<Cell> {
    let mut cells: Vec<Cell> = Vec::new();
    for c in table.columns() {
        cells.push(match c.kind {
            ColKind::Text => Cell::Text(String::new()),
            ColKind::Real => Cell::Real(0),
            ColKind::JsonList | ColKind::JsonValue => Cell::Text(String::new()),
            _ => Cell::Int(0),
        });
    }
    cells[0] = Cell::Text(id.to_string());
    cells
}

// ---------------------------------------------------------------------
// The schema of a database in memory: tables and their column names.

fn created_table(sql: &str) -> (String, Vec<String>) {
    let rest = sql.trim_start_matches("CREATE TABLE IF NOT EXISTS ");
    let open = rest.find('(').unwrap();
    let name = rest[..open].to_string();
    let inner = &rest[open + 1..rest.len() - 1];
    let cols = inner
        .split(',')
        .map(|c| c.trim().split(' ').next().unwrap_or("").to_string())
        .collect();
    (name, cols)
}

fn upgrade(schema: &mut Vec<(String, Vec<String>)>, store: &mut Store) {
    for step in init_schema() {
        match step {
            SchemaStep::Create(sql) => {
                let (name, cols) = created_table(sql);
                if !schema.iter().any(|e| e.0 == name) {
                    schema.push((name, cols));
                }
            }
            SchemaStep::EnsureColumn { table, column, decl: _ } => {
                if let Some(e) = schema.iter_mut().find(|e| e.0 == table) {
                    if !has_column(&e.1, column) {
                        e.1.push(column.to_string());
                    }
                }
            }
            SchemaStep::SeedStages => {
                if needs_stage_seed(store.proj_stages.len() as i64) {
                    for s in stage_seeds() {
                        let cells = vec![
                            Cell::Text(s.id.to_string()),
                            Cell::Text(s.name.to_string()),
                            Cell::Int(s.ord),
                            Cell::Int(s.landed),
                        ];
                        upsert(&mut store.proj_stages, "", cells, 0);
                    }
                }
            }
        }
    }
}

fn columns_of<'a>(schema: &'a [(String, Vec<String>)], table: &str) -> &'a Vec<String> {
    &schema.iter().find(|e| e.0 == table).unwrap().1
}

fn old_schema(tables: &[(&str, &str)]) -> Vec<(String, Vec<String>)> {
    tables
        .iter()
        .map(|(name, cols)| (name.to_string(), cols.split(',').map(|c| c.to_string()).collect()))
        .collect()
}

// ---------------------------------------------------------------------
// The scenarios.

#[test]
fn roundtrip_preserves_data() {
    let mut store = new_store();
    let sample = parse(
        r##"{
        "version": 1,
        "seeded": true,
        "projects": [{"id":"p1","name":"项目A","color":"#f00"}],
        "tasks": [
            {"id":"t1","projectId":"p1","title":"任务1","priority":"P0","due":"2026-08-09","note":"备注","done":false,"doneAt":0,"status":"todo","createdAt":1700000000000,"repeat":"weekly","waiting":false,"waitingFor":"","waitingSince":0,"planned":true,"subtasks":[{"id":"s1","title":"子1","done":true,"doneAt":123}],"logs":[{"id":"l1","at":1700000000000,"text":"跟进"}]},
            {"id":"t2","projectId":"","title":"等待中","priority":"P1","due":"","note":"","done":false,"doneAt":0,"status":"todo","createdAt":1,"repeat":"","waiting":true,"waitingFor":"小李","waitingSince":999,"planned":false,"subtasks":[],"logs":[]}
        ],
        "prefs": {"pid":"p1","pri":"P2"},
        "exportedAt": "2026-08-09T10:00:00.000Z"
    }"##,
    );
    save(&mut store, &sample);
    let v = load(&store).expect("should reconstruct");

    assert_eq!(v["version"].as_i64(), Some(1));
    assert_eq!(v["seeded"].as_bool(), Some(true));
    assert_eq!(v["projects"].as_array().map(|a| a.len()), Some(1));
    assert_eq!(v["projects"][0]["name"].as_str(), Some("项目A"));

    let tasks = v["tasks"].as_array().expect("tasks array");
    assert_eq!(tasks.len(), 2);
    let t1 = find(&v["tasks"], "t1");
    assert_eq!(t1["done"].as_bool(), Some(false));
    assert_eq!(t1["repeat"].as_str(), Some("weekly"));
    assert_eq!(t1["planned"].as_bool(), Some(true));
    assert_eq!(t1["subtasks"].as_array().map(|a| a.len()), Some(1));
    assert_eq!(t1["subtasks"][0]["done"].as_bool(), Some(true));
    assert_eq!(t1["logs"].as_array().map(|a| a.len()), Some(1));
    assert_eq!(t1["logs"][0]["text"].as_str(), Some("跟进"));
    assert_eq!(t1["createdAt"].as_i64(), Some(1700000000000));
    assert!(t1["done"].is_boolean(), "bool must survive as bool");

    let t2 = find(&v["tasks"], "t2");
    assert_eq!(t2["waiting"].as_bool(), Some(true));
    assert_eq!(t2["waitingFor"].as_str(), Some("小李"));
    assert_eq!(t2["waitingSince"].as_i64(), Some(999));
    assert_eq!(t2["projectId"].as_str(), Some(""));

    assert_eq!(v["prefs"]["pid"].as_str(), Some("p1"));
    assert_eq!(v["exportedAt"].as_str(), Some("2026-08-09T10:00:00.000Z"));
}

#[test]
fn empty_returns_none() {
    let store = new_store();
    assert!(load(&store).is_none());
}

#[test]
fn migrate_old_blob() {
    let mut store = new_store();
    let blob = r##"{
        "version":1,"seeded":true,
        "projects":[{"id":"p1","name":"旧项目","color":"#0f0"}],
        "tasks":[{"id":"t1","projectId":"p1","title":"旧任务","priority":"P2","due":"","note":"","done":true,"doneAt":5,"status":"done","createdAt":9,"repeat":"","waiting":false,"waitingFor":"","waitingSince":0,"planned":false,"subtasks":[],"logs":[]}],
        "prefs":{"pid":"","pri":"P2"}
    }"##;
    let key = "wb_taskdeck_data_v1";
    assert!(store_route(key) == StoreRoute::Document);
    store.raw.push((key.to_string(), blob.to_string()));

    let has_old = store.raw.iter().any(|(k, _)| k == key);
    if should_migrate(has_old, store.tasks.len() as i64) {
        let text = store.raw.iter().find(|(k, _)| k == key).unwrap().1.clone();
        save(&mut store, &parse(&text));
        store.raw.retain(|(k, _)| k != key);
    }

    let v = load(&store).expect("migrated");
    assert_eq!(v["tasks"].as_array().map(|a| a.len()), Some(1));
    assert_eq!(v["projects"][0]["name"].as_str(), Some("旧项目"));
    let leftover = store.raw.iter().filter(|(k, _)| k == key).count();
    assert_eq!(leftover, 0, "old blob should be removed after migrate");
}

#[test]
fn incremental_save_only_touches_changed() {
    let mut store = new_store();
    let base = parse(
        r##"{
        "version": 1, "seeded": true,
        "projects": [{"id":"p1","name":"项目A","color":"#f00"}],
        "tasks": [
            {"id":"t1","projectId":"p1","title":"任务1","priority":"P0","due":"","note":"","done":false,"doneAt":0,"status":"todo","createdAt":1,"repeat":"","waiting":false,"waitingFor":"","waitingSince":0,"planned":false,"subtasks":[{"id":"s1","title":"子1","done":false,"doneAt":0}],"logs":[]},
            {"id":"t2","projectId":"p1","title":"任务2","priority":"P1","due":"","note":"","done":false,"doneAt":0,"status":"todo","createdAt":2,"repeat":"","waiting":false,"waitingFor":"","waitingSince":0,"planned":false,"subtasks":[],"logs":[{"id":"l1","at":9,"text":"日志"}]},
            {"id":"t3","projectId":"","title":"任务3","priority":"P2","due":"","note":"","done":false,"doneAt":0,"status":"todo","createdAt":3,"repeat":"","waiting":false,"waitingFor":"","waitingSince":0,"planned":false,"subtasks":[],"logs":[]}
        ],
        "prefs": {"pid":"","pri":"P2"}
    }"##,
    );
    save(&mut store, &base);

    // The loaded document compares equal to what is stored: saving it
    // again writes no task.
    let loaded = load(&store).unwrap();
    let again = save_main(&to_json(&loaded), &snapshot(&store));
    if let Some(w) = again.task_writes.first() {
        panic!("任务 {} 不应被判定为变化", text_of(&w.row.cells, 0));
    }

    // Only t2's title changes.
    let mut changed = base.clone();
    changed["tasks"][1]["title"] = Value::from("任务2-改");
    let plan = save_main(&to_json(&changed), &snapshot(&store));
    assert_eq!(plan.task_writes.len(), 1);
    assert_eq!(text_of(&plan.task_writes[0].row.cells, 0), "t2");
    assert_eq!(plan.task_writes[0].sort_idx, 1);
    assert!(plan.task_deletes.is_empty());
    apply(&mut store, plan);

    let v = load(&store).unwrap();
    let tasks = v["tasks"].as_array().unwrap();
    assert_eq!(tasks.len(), 3, "任务总数应保持不变");
    assert_eq!(find(&v["tasks"], "t2")["title"].as_str(), Some("任务2-改"));
    let t1 = find(&v["tasks"], "t1");
    assert_eq!(t1["title"].as_str(), Some("任务1"));
    assert_eq!(t1["subtasks"].as_array().map(|a| a.len()), Some(1));
    assert_eq!(find(&v["tasks"], "t3")["title"].as_str(), Some("任务3"));

    // t3 goes, with what belongs to it.
    let mut without_t3 = changed.clone();
    without_t3["tasks"] = Value::Array(vec![changed["tasks"][0].clone(), changed["tasks"][1].clone()]);
    save(&mut store, &without_t3);
    let v2 = load(&store).unwrap();
    assert_eq!(v2["tasks"].as_array().unwrap().len(), 2, "t3 应被删除");
    assert_eq!(store.subtasks.len(), 1, "t1 的 1 个子任务应保留，t3 无子任务");
}

#[test]
fn old_db_upgrade_adds_missing_columns() {
    let mut store = new_store();
    let mut schema = old_schema(&[
        ("projects", "id,name,color,sort_idx"),
        (
            "tasks",
            "id,project_id,title,priority,due,note,done,done_at,status,created_at,repeat,waiting,waiting_for,waiting_since,planned,sort_idx",
        ),
        ("subtasks", "id,task_id,title,done,done_at,sort_idx"),
        ("store", "k,v"),
    ]);
    let mut p1 = blank(Table::Projects, "p1");
    p1[1] = Cell::Text("旧项目".to_string());
    p1[2] = Cell::Text("#f00".to_string());
    store.projects.push(Stored { task_id: String::new(), cells: p1, sort: 0 });

    upgrade(&mut schema, &mut store);
    for c in ["summary", "goal", "status", "landing", "isContract", "signDate", "landYear", "budget", "contract", "client_id"] {
        assert!(columns_of(&schema, "projects").iter().any(|x| x == c), "projects.{}", c);
    }
    for c in ["client_id", "tags", "important", "note_id"] {
        assert!(columns_of(&schema, "tasks").iter().any(|x| x == c), "tasks.{}", c);
    }
    for c in ["due", "priority", "note_id", "status"] {
        assert!(columns_of(&schema, "subtasks").iter().any(|x| x == c), "subtasks.{}", c);
    }

    let sample = parse(
        r##"{
        "version":1,"seeded":true,
        "projects":[{"id":"p1","name":"旧项目","color":"#f00","summary":"新摘要","goal":"新目标"}],
        "tasks":[{"id":"t1","projectId":"p1","title":"任务1","priority":"high","due":"","note":"","done":false,"doneAt":0,"status":"todo","createdAt":1,"repeat":"","waiting":false,"waitingFor":"","waitingSince":0,"planned":false,"subtasks":[],"logs":[],"tags":["tg1"],"important":true,"noteId":"n1","clientId":"c1"}],
        "prefs":{"pid":"","pri":"low"}
    }"##,
    );
    save(&mut store, &sample);
    let v = load(&store).unwrap();
    assert_eq!(v["projects"][0]["summary"].as_str(), Some("新摘要"));
    assert_eq!(v["projects"][0]["goal"].as_str(), Some("新目标"));
    assert_eq!(v["tasks"][0]["important"].as_bool(), Some(true));
    assert_eq!(v["tasks"][0]["clientId"].as_str(), Some("c1"));
    assert_eq!(v["tasks"][0]["tags"].as_array().map(|a| a.len()), Some(1));
}

#[test]
fn proj_fields_and_stages_roundtrip() {
    let mut store = new_store();
    let mut schema: Vec<(String, Vec<String>)> = Vec::new();
    upgrade(&mut schema, &mut store);
    let sample = parse(
        r##"{
        "version":1,"seeded":true,
        "projects":[{"id":"p1","name":"客户A","color":"#0a84ff","summary":"s","goal":"g",
            "status":"st_accept","landing":"high","isContract":true,"signDate":"2026-03-15","landYear":2026,
            "budget":500000,"contract":800000}],
        "projStages":[
            {"id":"st_pre","name":"售前阶段","ord":1,"landed":0},
            {"id":"st_sign","name":"合同签订","ord":2,"landed":1},
            {"id":"st_deliver","name":"交付中","ord":3,"landed":1},
            {"id":"st_accept","name":"已验收","ord":4,"landed":1}
        ],
        "prefs":{"pid":"","pri":"low"}
    }"##,
    );
    save(&mut store, &sample);
    let v = load(&store).unwrap();
    assert_eq!(v["projects"][0]["status"].as_str(), Some("st_accept"));
    assert_eq!(v["projects"][0]["landing"].as_str(), Some("high"));
    assert_eq!(v["projects"][0]["isContract"].as_i64(), Some(1));
    assert_eq!(v["projects"][0]["signDate"].as_str(), Some("2026-03-15"));
    assert_eq!(v["projects"][0]["landYear"].as_i64(), Some(2026));
    assert_eq!(v["projects"][0]["budget"].as_f64(), Some(500000.0));
    assert_eq!(v["projects"][0]["contract"].as_f64(), Some(800000.0));
    assert_eq!(v["projStages"].as_array().map(|a| a.len()), Some(4));
    assert_eq!(v["projStages"][3]["name"].as_str(), Some("已验收"));
}

#[test]
fn note_tags_roundtrip() {
    let mut store = new_store();
    let sample = parse(
        r##"{
        "version":1,"seeded":true,
        "notes":[
            {"id":"n1","title":"会议记录","cat":"工作","md":"# 会议记录","createdAt":1,"updatedAt":2,"pinned":false,"tags":["tg1","tg2"]},
            {"id":"n2","title":"无标签","cat":"","md":"","createdAt":3,"updatedAt":4,"pinned":true,"tags":[]}
        ],
        "prefs":{"pid":"","pri":"low"}
    }"##,
    );
    save(&mut store, &sample);
    let v = load(&store).unwrap();
    let notes = v["notes"].as_array().unwrap();
    assert_eq!(notes.len(), 2);
    let n1 = find(&v["notes"], "n1");
    assert_eq!(n1["tags"].as_array().map(|a| a.len()), Some(2), "n1 的 2 个标签应完整保留");
    assert_eq!(n1["tags"][0].as_str(), Some("tg1"));
    assert_eq!(n1["title"].as_str(), Some("会议记录"));
    let n2 = find(&v["notes"], "n2");
    assert_eq!(n2["tags"].as_array().map(|a| a.len()), Some(0));

    let mut only_tags = sample.clone();
    only_tags["notes"][1]["tags"] = Value::Array(vec![Value::from("tg3")]);
    save(&mut store, &only_tags);
    let v2 = load(&store).unwrap();
    let n2b = find(&v2["notes"], "n2");
    assert_eq!(n2b["tags"].as_array().map(|a| a.len()), Some(1), "仅改标签也应落库");
    assert_eq!(n2b["tags"][0].as_str(), Some("tg3"));
}

#[test]
fn old_notes_table_upgrade_adds_tags() {
    let mut store = new_store();
    let mut schema = old_schema(&[
        ("store", "k,v"),
        ("notes", "id,title,cat,md,created_at,updated_at,pinned,sort_idx"),
    ]);
    let mut old = blank(Table::Notes, "old");
    old[1] = Cell::Text("老笔记".to_string());
    old[3] = Cell::Text("body".to_string());
    old[4] = Cell::Int(1);
    old[5] = Cell::Int(2);
    store.notes.push(Stored { task_id: String::new(), cells: old, sort: 0 });
    upgrade(&mut schema, &mut store);
    assert!(columns_of(&schema, "notes").iter().any(|x| x == "tags"));

    let sample = parse(
        r##"{
        "version":1,"seeded":true,
        "notes":[{"id":"old","title":"老笔记","cat":"","md":"body","createdAt":1,"updatedAt":2,"pinned":false,"tags":["tg9"]}],
        "prefs":{"pid":"","pri":"low"}
    }"##,
    );
    save(&mut store, &sample);
    let v = load(&store).unwrap();
    assert_eq!(v["notes"][0]["tags"][0].as_str(), Some("tg9"));
}

#[test]
fn project_client_id_roundtrip() {
    let mut store = new_store();
    let sample = parse(
        r##"{
        "version":1,"seeded":true,
        "projects":[
            {"id":"p1","name":"客户 A 交付","color":"#0071e3","clientId":"c1"},
            {"id":"p2","name":"内部事务","color":"#e5484d","clientId":""}
        ],
        "prefs":{"pid":"","pri":"low"}
    }"##,
    );
    save(&mut store, &sample);
    let v = load(&store).unwrap();
    let projects = v["projects"].as_array().unwrap();
    assert_eq!(projects.len(), 2);
    assert_eq!(find(&v["projects"], "p1")["clientId"].as_str(), Some("c1"), "项目的 clientId 应完整保留");
    assert_eq!(find(&v["projects"], "p2")["clientId"].as_str(), Some(""));

    let mut only_client = sample.clone();
    only_client["projects"][1]["clientId"] = Value::from("c2");
    save(&mut store, &only_client);
    let v2 = load(&store).unwrap();
    assert_eq!(find(&v2["projects"], "p2")["clientId"].as_str(), Some("c2"), "仅改 clientId 也应落库");
}

#[test]
fn old_projects_table_upgrade_adds_client_id() {
    let mut store = new_store();
    let mut schema = old_schema(&[
        ("store", "k,v"),
        ("projects", "id,name,color,summary,goal,sort_idx"),
    ]);
    let mut old = blank(Table::Projects, "old");
    old[1] = Cell::Text("老项目".to_string());
    old[2] = Cell::Text("#0071e3".to_string());
    store.projects.push(Stored { task_id: String::new(), cells: old, sort: 0 });
    upgrade(&mut schema, &mut store);
    assert!(columns_of(&schema, "projects").iter().any(|x| x == "client_id"));

    let sample = parse(
        r##"{
        "version":1,"seeded":true,
        "projects":[{"id":"old","name":"老项目","color":"#0071e3","clientId":"c9"}],
        "prefs":{"pid":"","pri":"low"}
    }"##,
    );
    save(&mut store, &sample);
    let v = load(&store).unwrap();
    assert_eq!(v["projects"][0]["clientId"].as_str(), Some("c9"));
}

// ---------------------------------------------------------------------
// Further cases of saving and loading.

#[test]
fn saving_into_an_empty_store_writes_everything() {
    let store = new_store();
    let doc = parse(
        r##"{"clients":[{"id":"c1","name":"A"},{"id":"c2","name":"B"}],
            "tags":[{"id":"g1","name":"x","color":"red","category":"k"}],
            "smartLists":[{"id":"s1","name":"q","query":{"pri":"P0"}}],
            "noteCats":["工作", 3, "生活"],
            "tasks":[{"id":"t1","subtasks":[{"id":"s1"},{"id":"s2"}],"logs":[{"id":"l1","at":5,"text":"x"}]}]}"##,
    );
    let plan = save_main(&to_json(&doc), &snapshot(&store));
    assert!(plan.clients.deletes.is_empty());
    assert_eq!(plan.clients.upserts.len(), 2);
    assert_eq!(plan.clients.upserts[1].sort_idx, 1);
    assert_eq!(text_of(&plan.clients.upserts[1].row.cells, 1), "B");
    assert_eq!(text_of(&plan.clients.upserts[1].row.cells, 2), "");
    assert_eq!(plan.tags.upserts.len(), 1);
    assert_eq!(text_of(&plan.smart_lists.upserts[0].row.cells, 2), r##"{"pri":"P0"}"##);
    // Only the string categories are written, each at its position.
    assert_eq!(plan.note_cats.len(), 2);
    assert_eq!(text_of(&plan.note_cats[0].row.cells, 0), "工作");
    assert_eq!(plan.note_cats[1].sort_idx, 2);
    assert_eq!(plan.task_writes.len(), 1);
    assert_eq!(plan.task_writes[0].subtasks.len(), 2);
    assert_eq!(plan.task_writes[0].logs.len(), 1);
    assert!(plan.meta.is_empty());
    assert!(plan.projects.upserts.is_empty());
}

#[test]
fn saving_again_writes_only_what_must_be_rewritten() {
    let mut store = new_store();
    let doc = parse(
        r##"{"version":2,"seeded":true,"prefs":{"pid":"","pri":"P1"},
            "projects":[{"id":"p1","name":"A","isContract":true},{"id":"p2","name":"B","isContract":false}],
            "projStages":[{"id":"a","name":"x","landed":1}],
            "clients":[{"id":"c1","name":"A"}],
            "notes":[{"id":"n1","title":"t","tags":["a"]}],
            "smartLists":[{"id":"s1","name":"q","query":null}],
            "noteCats":["工作"],
            "tasks":[{"id":"t1","title":"x","tags":["a","b"],"subtasks":[{"id":"s1","title":"y"}],
                      "logs":[{"id":"l2","at":7,"text":"b"},{"id":"l1","at":5,"text":"a"}]}]}"##,
    );
    save(&mut store, &doc);
    let plan = save_main(&to_json(&doc), &snapshot(&store));
    // Nothing goes, no project, client, tag, note, smart list or task is
    // written (a contract project included).
    assert!(plan.projects.deletes.is_empty() && plan.clients.deletes.is_empty());
    assert!(plan.projects.upserts.is_empty());
    assert!(plan.task_deletes.is_empty());
    assert!(plan.clients.upserts.is_empty());
    assert!(plan.notes.upserts.is_empty());
    assert!(plan.smart_lists.upserts.is_empty());
    assert!(plan.task_writes.is_empty());
    // Stages, categories and meta values are written every time.
    assert_eq!(plan.proj_stages.upserts.len(), 1);
    assert_eq!(plan.note_cats.len(), 1);
    assert_eq!(plan.meta.len(), 3);
}

#[test]
fn a_moved_task_is_rewritten() {
    let mut store = new_store();
    let doc = parse(r##"{"tasks":[{"id":"a"},{"id":"b"}]}"##);
    save(&mut store, &doc);
    let swapped = parse(r##"{"tasks":[{"id":"b"},{"id":"a"}]}"##);
    let plan = save_main(&to_json(&swapped), &snapshot(&store));
    assert_eq!(plan.task_writes.len(), 2);
    apply(&mut store, plan);
    let v = load(&store).unwrap();
    assert_eq!(v["tasks"][0]["id"].as_str(), Some("b"));
    assert_eq!(v["tasks"][1]["id"].as_str(), Some("a"));
}

#[test]
fn a_removed_item_is_deleted() {
    let mut store = new_store();
    save(&mut store, &parse(r##"{"clients":[{"id":"c1"},{"id":"c2"},{"id":"c3"}]}"##));
    let plan = save_main(&to_json(&parse(r##"{"clients":[{"id":"c2"}]}"##)), &snapshot(&store));
    assert_eq!(plan.clients.deletes, vec!["c1".to_string(), "c3".to_string()]);
    // c2 moves from the second place to the first, so it is written again.
    assert_eq!(plan.clients.upserts.len(), 1);
    assert_eq!(plan.clients.upserts[0].sort_idx, 0);
    apply(&mut store, plan);
    let v = load(&store).unwrap();
    assert_eq!(v["clients"].as_array().map(|a| a.len()), Some(1));
}

#[test]
fn logs_in_another_order_are_no_change() {
    let mut store = new_store();
    save(
        &mut store,
        &parse(r##"{"tasks":[{"id":"t","logs":[{"id":"l1","at":9,"text":"b"},{"id":"l2","at":1,"text":"a"}]}]}"##),
    );
    let again = parse(r##"{"tasks":[{"id":"t","logs":[{"id":"l2","at":1,"text":"a"},{"id":"l1","at":9,"text":"b"}]}]}"##);
    let plan = save_main(&to_json(&again), &snapshot(&store));
    assert!(plan.task_writes.is_empty());
    // Subtasks, by contrast, are compared in order.
    save(&mut store, &parse(r##"{"tasks":[{"id":"u","subtasks":[{"id":"a"},{"id":"b"}]}]}"##));
    let swapped = parse(r##"{"tasks":[{"id":"u","subtasks":[{"id":"b"},{"id":"a"}]}]}"##);
    assert_eq!(save_main(&to_json(&swapped), &snapshot(&store)).task_writes.len(), 1);
}

#[test]
fn contract_flag_cleared_alone_is_written() {
    let mut store = new_store();
    save(&mut store, &parse(r##"{"projects":[{"id":"p","isContract":true}]}"##));
    let same = save_main(&to_json(&parse(r##"{"projects":[{"id":"p","isContract":true}]}"##)), &snapshot(&store));
    assert!(same.projects.upserts.is_empty());
    let plan = save_main(&to_json(&parse(r##"{"projects":[{"id":"p","isContract":false}]}"##)), &snapshot(&store));
    assert_eq!(plan.projects.upserts.len(), 1);
    apply(&mut store, plan);
    assert_eq!(load(&store).unwrap()["projects"][0]["isContract"].as_i64(), Some(0));
}

#[test]
fn a_moved_project_is_rewritten() {
    let mut store = new_store();
    save(&mut store, &parse(r##"{"projects":[{"id":"a","name":"A"},{"id":"b","name":"B"},{"id":"c"}]}"##));
    let swapped = parse(r##"{"projects":[{"id":"b","name":"B"},{"id":"a","name":"A"},{"id":"c"}]}"##);
    let plan = save_main(&to_json(&swapped), &snapshot(&store));
    assert_eq!(plan.projects.upserts.len(), 2);
    assert_eq!(plan.projects.upserts[0].sort_idx, 0);
    assert_eq!(text_of(&plan.projects.upserts[0].row.cells, 0), "b");
    apply(&mut store, plan);
    let v = load(&store).unwrap();
    assert_eq!(v["projects"][0]["id"].as_str(), Some("b"));
    assert_eq!(v["projects"][1]["id"].as_str(), Some("a"));
    assert_eq!(v["projects"][2]["id"].as_str(), Some("c"));
    // Removing an earlier client moves the later ones up.
    save(&mut store, &parse(r##"{"clients":[{"id":"x"},{"id":"y"},{"id":"z"}]}"##));
    let plan = save_main(&to_json(&parse(r##"{"clients":[{"id":"x"},{"id":"z"}]}"##)), &snapshot(&store));
    assert_eq!(plan.clients.deletes, vec!["y".to_string()]);
    assert_eq!(plan.clients.upserts.len(), 1);
    assert_eq!(plan.clients.upserts[0].sort_idx, 1);
}

#[test]
fn logs_come_back_ordered_by_time() {
    let mut store = new_store();
    save(&mut store, &parse(r##"{"tasks":[{"id":"t","logs":[{"id":"l2","at":9,"text":"b"},{"id":"l1","at":3,"text":"a"}]}]}"##));
    let v = load(&store).unwrap();
    assert_eq!(v["tasks"][0]["logs"][0]["id"].as_str(), Some("l1"));
    assert_eq!(v["tasks"][0]["logs"][1]["id"].as_str(), Some("l2"));
}

#[test]
fn meta_values_are_stored_as_text() {
    let mut store = new_store();
    let doc = parse(r##"{"version":3,"seeded":false,"exportedAt":"2026","prefs":{"pid":"x"},"tasks":[{"id":"t"}]}"##);
    let plan = save_main(&to_json(&doc), &snapshot(&store));
    let texts: Vec<(String, String)> =
        plan.meta.iter().map(|r| (text_of(&r.cells, 0), text_of(&r.cells, 1))).collect();
    assert_eq!(
        texts,
        vec![
            ("version".to_string(), "3".to_string()),
            ("seeded".to_string(), "false".to_string()),
            ("prefs".to_string(), r##"{"pid":"x"}"##.to_string()),
            ("exportedAt".to_string(), "2026".to_string()),
        ]
    );
    apply(&mut store, plan);
    let v = load(&store).unwrap();
    assert_eq!(v["version"].as_i64(), Some(3));
    assert_eq!(v["seeded"].as_bool(), Some(false));
    assert_eq!(v["prefs"]["pid"].as_str(), Some("x"));
    // "2026" parses back as a number: the text of a string is not quoted.
    assert_eq!(v["exportedAt"].as_i64(), Some(2026));
}

#[test]
fn load_fills_defaults() {
    let mut store = new_store();
    save(&mut store, &parse(r##"{"tags":[{"id":"g"}]}"##));
    let v = load(&store).unwrap();
    assert_eq!(v["version"].as_i64(), Some(1));
    assert_eq!(v["seeded"].as_bool(), Some(false));
    assert_eq!(v["prefs"]["pid"].as_str(), Some(""));
    assert_eq!(v["prefs"]["pri"].as_str(), Some("P2"));
    assert_eq!(v["tasks"].as_array().map(|a| a.len()), Some(0));
    assert_eq!(v["noteCats"].as_array().map(|a| a.len()), Some(0));
}

#[test]
fn stored_json_that_does_not_parse_reads_as_default() {
    let mut store = new_store();
    let mut note = blank(Table::Notes, "n");
    note[7] = Cell::Text("not json".to_string());
    store.notes.push(Stored { task_id: String::new(), cells: note, sort: 0 });
    let mut sl = blank(Table::SmartLists, "s");
    sl[2] = Cell::Text("{".to_string());
    store.smart_lists.push(Stored { task_id: String::new(), cells: sl, sort: 0 });
    store.meta.push(Stored {
        task_id: String::new(),
        cells: vec![Cell::Text("exportedAt".to_string()), Cell::Text("today".to_string())],
        sort: 0,
    });
    let v = load(&store).unwrap();
    assert_eq!(v["notes"][0]["tags"], Value::Array(Vec::new()));
    assert_eq!(v["smartLists"][0]["query"], Value::Null);
    assert_eq!(v["exportedAt"].as_str(), Some("today"));
}

#[test]
fn only_stages_or_categories_load_nothing() {
    let mut store = new_store();
    let mut schema: Vec<(String, Vec<String>)> = Vec::new();
    upgrade(&mut schema, &mut store);
    assert_eq!(store.proj_stages.len(), 4);
    // A document without stages removes the stored ones.
    save(&mut store, &parse(r##"{"noteCats":["a"],"version":1}"##));
    assert_eq!(store.proj_stages.len(), 0);
    assert!(load(&store).is_none());
}

#[test]
fn a_non_object_document_saves_nothing_but_deletes() {
    let mut store = new_store();
    save(&mut store, &parse(r##"{"tasks":[{"id":"t"}],"projects":[{"id":"p"}]}"##));
    let plan = save_main(&to_json(&parse("[1,2]")), &snapshot(&store));
    assert_eq!(plan.task_deletes, vec!["t".to_string()]);
    assert_eq!(plan.projects.deletes, vec!["p".to_string()]);
    assert!(plan.meta.is_empty() && plan.task_writes.is_empty() && plan.note_cats.is_empty());
}
