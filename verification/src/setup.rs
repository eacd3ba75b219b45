//! Setting up and routing: the database schema and its upgrades, which key
//! holds the main document, when old data is migrated, the data directory,
//! and where menu and tray events go.

use vstd::prelude::*;
use crate::schema::{Table, schema, table_name};
use crate::text::{append_str, chars_of, has_prefix, str_equal, trim, trim_spec};

verus! {

// ---------------------------------------------------------------------
// The store key of the main document.

/// The key the front end stores its main document under (other keys, such
/// as the AI settings, are kept as raw text).
pub open spec fn main_key() -> Seq<char> {
    "wb_taskdeck_data_v1"@
}

/// Where a store key is read from and written to.
#[derive(Clone, Copy, PartialEq, Eq, Structural, Debug)]
pub enum StoreRoute {
    /// The main document, kept in the normalised tables.
    Document,
    /// Any other key, kept as raw text in the `store` table.
    Raw,
}

/// Where `key` is read from and written to.
pub fn store_route(key: &str) -> (r: StoreRoute)
    ensures
        r == (if key@ == main_key() {
            StoreRoute::Document
        } else {
            StoreRoute::Raw
        }),
{
    if str_equal(key, "wb_taskdeck_data_v1") {
        StoreRoute::Document
    } else {
        StoreRoute::Raw
    }
}

/// Whether the old single-blob document is moved into the tables: when it
/// is still stored and no task is.
pub fn should_migrate(has_old_blob: bool, task_count: i64) -> (r: bool)
    ensures
        r == (has_old_blob && task_count == 0),
{
    has_old_blob && task_count == 0
}

// ---------------------------------------------------------------------
// Schema.

/// One step of bringing the database schema up to date.
pub enum SchemaStep {
    /// Run a `CREATE TABLE IF NOT EXISTS` statement.
    Create(&'static str),
    /// Add a column to an older table that lacks it.
    EnsureColumn { table: &'static str, column: &'static str, decl: &'static str },
    /// Fill the project stages with the default ones when there are none.
    SeedStages,
}

pub enum SchemaStepV {
    Create(Seq<char>),
    EnsureColumn { table: Seq<char>, column: Seq<char>, decl: Seq<char> },
    SeedStages,
}

impl View for SchemaStep {
    type V = SchemaStepV;

    open spec fn view(&self) -> SchemaStepV {
        match self {
            SchemaStep::Create(s) => SchemaStepV::Create(s@),
            SchemaStep::EnsureColumn { table, column, decl } => SchemaStepV::EnsureColumn {
                table: table@,
                column: column@,
                decl: decl@,
            },
            SchemaStep::SeedStages => SchemaStepV::SeedStages,
        }
    }
}

pub open spec fn step_views(v: Seq<SchemaStep>) -> Seq<SchemaStepV> {
    Seq::new(v.len(), |i: int| v[i]@)
}

pub open spec fn ensure(table: &'static str, column: &'static str, decl: &'static str) -> SchemaStepV {
    SchemaStepV::EnsureColumn { table: table@, column: column@, decl: decl@ }
}

pub open spec fn create(s: &'static str) -> SchemaStepV {
    SchemaStepV::Create(s@)
}

/// The steps that bring a database, new or old, to the current schema.
pub open spec fn schema_plan() -> Seq<SchemaStepV> {
    seq![
        create("CREATE TABLE IF NOT EXISTS store(k TEXT PRIMARY KEY, v TEXT)"),
        create("CREATE TABLE IF NOT EXISTS projects(id TEXT PRIMARY KEY, name TEXT, color TEXT, summary TEXT, goal TEXT, sort_idx INTEGER)"),
        ensure("projects", "summary", "TEXT"),
        ensure("projects", "goal", "TEXT"),
        ensure("projects", "status", "TEXT"),
        ensure("projects", "landing", "TEXT"),
        ensure("projects", "isContract", "INTEGER"),
        ensure("projects", "signDate", "TEXT"),
        ensure("projects", "landYear", "INTEGER"),
        ensure("projects", "budget", "REAL"),
        ensure("projects", "contract", "REAL"),
        ensure("projects", "client_id", "TEXT"),
        create("CREATE TABLE IF NOT EXISTS proj_stages(id TEXT PRIMARY KEY, name TEXT, ord INTEGER, landed INTEGER)"),
        SchemaStepV::SeedStages,
        create("CREATE TABLE IF NOT EXISTS tasks(id TEXT PRIMARY KEY, project_id TEXT, client_id TEXT, title TEXT, priority TEXT, due TEXT, note TEXT, done INTEGER, done_at INTEGER, status TEXT, created_at INTEGER, repeat TEXT, waiting INTEGER, waiting_for TEXT, waiting_since INTEGER, planned INTEGER, sort_idx INTEGER, tags TEXT, important INTEGER, note_id TEXT)"),
        create("CREATE TABLE IF NOT EXISTS subtasks(id TEXT PRIMARY KEY, task_id TEXT, title TEXT, done INTEGER, done_at INTEGER, sort_idx INTEGER, due TEXT, priority TEXT, note_id TEXT, status TEXT)"),
        create("CREATE TABLE IF NOT EXISTS clients(id TEXT PRIMARY KEY, name TEXT, color TEXT, category TEXT, sort_idx INTEGER)"),
        create("CREATE TABLE IF NOT EXISTS tags(id TEXT PRIMARY KEY, name TEXT, color TEXT, category TEXT, sort_idx INTEGER)"),
        create("CREATE TABLE IF NOT EXISTS notes(id TEXT PRIMARY KEY, title TEXT, cat TEXT, md TEXT, created_at INTEGER, updated_at INTEGER, pinned INTEGER, sort_idx INTEGER, tags TEXT)"),
        create("CREATE TABLE IF NOT EXISTS note_cats(name TEXT PRIMARY KEY, sort_idx INTEGER)"),
        create("CREATE TABLE IF NOT EXISTS smart_lists(id TEXT PRIMARY KEY, name TEXT, query TEXT, sort_idx INTEGER)"),
        ensure("tasks", "client_id", "TEXT"),
        ensure("tasks", "tags", "TEXT"),
        ensure("tasks", "important", "INTEGER"),
        ensure("tasks", "note_id", "TEXT"),
        ensure("subtasks", "due", "TEXT"),
        ensure("subtasks", "priority", "TEXT"),
        ensure("subtasks", "note_id", "TEXT"),
        ensure("subtasks", "status", "TEXT"),
        ensure("notes", "tags", "TEXT"),
        create("CREATE TABLE IF NOT EXISTS logs(id TEXT PRIMARY KEY, task_id TEXT, at INTEGER, text TEXT)"),
        create("CREATE TABLE IF NOT EXISTS app_meta(k TEXT PRIMARY KEY, v TEXT)"),
    ]
}

/// The steps that bring a database to the current schema, in order.
pub fn init_schema() -> (r: Vec<SchemaStep>)
    ensures
        step_views(r@) == schema_plan(),
{
    let mut v: Vec<SchemaStep> = Vec::new();
    v.push(SchemaStep::Create("CREATE TABLE IF NOT EXISTS store(k TEXT PRIMARY KEY, v TEXT)"));
    v.push(SchemaStep::Create("CREATE TABLE IF NOT EXISTS projects(id TEXT PRIMARY KEY, name TEXT, color TEXT, summary TEXT, goal TEXT, sort_idx INTEGER)"));
    v.push(SchemaStep::EnsureColumn { table: "projects", column: "summary", decl: "TEXT" });
    v.push(SchemaStep::EnsureColumn { table: "projects", column: "goal", decl: "TEXT" });
    v.push(SchemaStep::EnsureColumn { table: "projects", column: "status", decl: "TEXT" });
    v.push(SchemaStep::EnsureColumn { table: "projects", column: "landing", decl: "TEXT" });
    v.push(SchemaStep::EnsureColumn { table: "projects", column: "isContract", decl: "INTEGER" });
    v.push(SchemaStep::EnsureColumn { table: "projects", column: "signDate", decl: "TEXT" });
    v.push(SchemaStep::EnsureColumn { table: "projects", column: "landYear", decl: "INTEGER" });
    v.push(SchemaStep::EnsureColumn { table: "projects", column: "budget", decl: "REAL" });
    v.push(SchemaStep::EnsureColumn { table: "projects", column: "contract", decl: "REAL" });
    v.push(SchemaStep::EnsureColumn { table: "projects", column: "client_id", decl: "TEXT" });
    v.push(SchemaStep::Create("CREATE TABLE IF NOT EXISTS proj_stages(id TEXT PRIMARY KEY, name TEXT, ord INTEGER, landed INTEGER)"));
    v.push(SchemaStep::SeedStages);
    v.push(SchemaStep::Create("CREATE TABLE IF NOT EXISTS tasks(id TEXT PRIMARY KEY, project_id TEXT, client_id TEXT, title TEXT, priority TEXT, due TEXT, note TEXT, done INTEGER, done_at INTEGER, status TEXT, created_at INTEGER, repeat TEXT, waiting INTEGER, waiting_for TEXT, waiting_since INTEGER, planned INTEGER, sort_idx INTEGER, tags TEXT, important INTEGER, note_id TEXT)"));
    v.push(SchemaStep::Create("CREATE TABLE IF NOT EXISTS subtasks(id TEXT PRIMARY KEY, task_id TEXT, title TEXT, done INTEGER, done_at INTEGER, sort_idx INTEGER, due TEXT, priority TEXT, note_id TEXT, status TEXT)"));
    v.push(SchemaStep::Create("CREATE TABLE IF NOT EXISTS clients(id TEXT PRIMARY KEY, name TEXT, color TEXT, category TEXT, sort_idx INTEGER)"));
    v.push(SchemaStep::Create("CREATE TABLE IF NOT EXISTS tags(id TEXT PRIMARY KEY, name TEXT, color TEXT, category TEXT, sort_idx INTEGER)"));
    v.push(SchemaStep::Create("CREATE TABLE IF NOT EXISTS notes(id TEXT PRIMARY KEY, title TEXT, cat TEXT, md TEXT, created_at INTEGER, updated_at INTEGER, pinned INTEGER, sort_idx INTEGER, tags TEXT)"));
    v.push(SchemaStep::Create("CREATE TABLE IF NOT EXISTS note_cats(name TEXT PRIMARY KEY, sort_idx INTEGER)"));
    v.push(SchemaStep::Create("CREATE TABLE IF NOT EXISTS smart_lists(id TEXT PRIMARY KEY, name TEXT, query TEXT, sort_idx INTEGER)"));
    v.push(SchemaStep::EnsureColumn { table: "tasks", column: "client_id", decl: "TEXT" });
    v.push(SchemaStep::EnsureColumn { table: "tasks", column: "tags", decl: "TEXT" });
    v.push(SchemaStep::EnsureColumn { table: "tasks", column: "important", decl: "INTEGER" });
    v.push(SchemaStep::EnsureColumn { table: "tasks", column: "note_id", decl: "TEXT" });
    v.push(SchemaStep::EnsureColumn { table: "subtasks", column: "due", decl: "TEXT" });
    v.push(SchemaStep::EnsureColumn { table: "subtasks", column: "priority", decl: "TEXT" });
    v.push(SchemaStep::EnsureColumn { table: "subtasks", column: "note_id", decl: "TEXT" });
    v.push(SchemaStep::EnsureColumn { table: "subtasks", column: "status", decl: "TEXT" });
    v.push(SchemaStep::EnsureColumn { table: "notes", column: "tags", decl: "TEXT" });
    v.push(SchemaStep::Create("CREATE TABLE IF NOT EXISTS logs(id TEXT PRIMARY KEY, task_id TEXT, at INTEGER, text TEXT)"));
    v.push(SchemaStep::Create("CREATE TABLE IF NOT EXISTS app_meta(k TEXT PRIMARY KEY, v TEXT)"));
    assert(step_views(v@) =~= schema_plan());
    v
}

/// A default project stage: id, name, order, and whether a project at this
/// stage counts as landed.
pub struct StageSeed {
    pub id: &'static str,
    pub name: &'static str,
    pub ord: i64,
    pub landed: i64,
}

/// The project stages a new database starts with.
pub fn stage_seeds() -> (r: Vec<StageSeed>)
    ensures
        r@.len() == 4,
        r@[0].id@ == "st_pre"@ && r@[0].name@ == "售前阶段"@ && r@[0].ord == 1 && r@[0].landed == 0,
        r@[1].id@ == "st_sign"@ && r@[1].name@ == "合同签订"@ && r@[1].ord == 2 && r@[1].landed == 1,
        r@[2].id@ == "st_deliver"@ && r@[2].name@ == "交付中"@ && r@[2].ord == 3 && r@[2].landed == 1,
        r@[3].id@ == "st_accept"@ && r@[3].name@ == "已验收"@ && r@[3].ord == 4 && r@[3].landed == 1,
{
    let mut v: Vec<StageSeed> = Vec::new();
    v.push(StageSeed { id: "st_pre", name: "售前阶段", ord: 1, landed: 0 });
    v.push(StageSeed { id: "st_sign", name: "合同签订", ord: 2, landed: 1 });
    v.push(StageSeed { id: "st_deliver", name: "交付中", ord: 3, landed: 1 });
    v.push(StageSeed { id: "st_accept", name: "已验收", ord: 4, landed: 1 });
    v
}

/// Whether the default stages are added: when there are no stages yet.
pub fn needs_stage_seed(stage_count: i64) -> (r: bool)
    ensures
        r == (stage_count == 0),
{
    stage_count == 0
}

/// Whether `column` is among a table's column names.
pub fn has_column(names: &Vec<String>, column: &str) -> (r: bool)
    ensures
        r == exists|i: int| 0 <= i < names@.len() && (#[trigger] names@[i])@ == column@,
{
    let mut i: usize = 0;
    while i < names.len()
        invariant
            i <= names@.len(),
            forall|k: int| 0 <= k < i ==> (#[trigger] names@[k])@ != column@,
        decreases names.len() - i,
    {
        if str_equal(names[i].as_str(), column) {
            return true;
        }
        i = i + 1;
    }
    false
}

/// The statement that lists a table's columns.
pub fn table_info_sql(table: &str) -> (r: String)
    ensures
        r@ == "PRAGMA table_info("@ + table@ + ")"@,
{
    let mut s = String::new();
    append_str(&mut s, "PRAGMA table_info(");
    append_str(&mut s, table);
    append_str(&mut s, ")");
    s
}

/// The statement that adds a column.
pub fn add_column_sql(table: &str, column: &str, decl: &str) -> (r: String)
    ensures
        r@ == "ALTER TABLE "@ + table@ + " ADD COLUMN "@ + column@ + " "@ + decl@,
{
    let mut s = String::new();
    append_str(&mut s, "ALTER TABLE ");
    append_str(&mut s, table);
    append_str(&mut s, " ADD COLUMN ");
    append_str(&mut s, column);
    append_str(&mut s, " ");
    append_str(&mut s, decl);
    s
}

// ---------------------------------------------------------------------
// Data directory.

/// The data directory named in the configuration file: its text trimmed,
/// when that is not empty. (It is used only when it names a directory.)
pub fn custom_data_dir(config: &str) -> (r: Option<String>)
    ensures
        r is None <==> trim_spec(config@).len() == 0,
        r matches Some(d) ==> d@ == trim_spec(config@),
{
    let t = trim(config);
    if t.as_str().is_empty() {
        None
    } else {
        Some(t)
    }
}

/// Which folder the file manager is asked to show.
#[derive(Clone, Copy, PartialEq, Eq, Structural, Debug)]
pub enum RevealTarget {
    Snapshots,
    Data,
}

/// The folder to show for `which`: the snapshots for `snapshots`, the data
/// directory otherwise.
pub fn reveal_target(which: &str) -> (r: RevealTarget)
    ensures
        r == (if which@ == "snapshots"@ {
            RevealTarget::Snapshots
        } else {
            RevealTarget::Data
        }),
{
    if str_equal(which, "snapshots") {
        RevealTarget::Snapshots
    } else {
        RevealTarget::Data
    }
}

// ---------------------------------------------------------------------
// Menu and tray events.

/// What a click on an application menu item does.
#[derive(Clone, Copy, PartialEq, Eq, Structural, Debug)]
pub enum MenuAction {
    /// Quit the application.
    Quit,
    /// Hand the item's id to the front end.
    Forward,
}

pub fn menu_action(id: &str) -> (r: MenuAction)
    ensures
        r == (if id@ == "quit"@ {
            MenuAction::Quit
        } else {
            MenuAction::Forward
        }),
{
    if str_equal(id, "quit") {
        MenuAction::Quit
    } else {
        MenuAction::Forward
    }
}

/// What a click on a tray menu item does.
#[derive(Clone, Copy, PartialEq, Eq, Structural, Debug)]
pub enum TrayAction {
    /// Show and focus the main window.
    Show,
    /// Show the main window and ask the front end for a new task.
    NewTask,
    /// Quit the application.
    Quit,
    /// Nothing.
    Ignore,
}

pub fn tray_action(id: &str) -> (r: TrayAction)
    ensures
        r == (if id@ == "show"@ {
            TrayAction::Show
        } else if id@ == "new"@ {
            TrayAction::NewTask
        } else if id@ == "quit"@ {
            TrayAction::Quit
        } else {
            TrayAction::Ignore
        }),
{
    if str_equal(id, "show") {
        TrayAction::Show
    } else if str_equal(id, "new") {
        TrayAction::NewTask
    } else if str_equal(id, "quit") {
        TrayAction::Quit
    } else {
        TrayAction::Ignore
    }
}

/// Whether `text` contains `pat` as a contiguous part.
pub open spec fn contains_text(text: Seq<char>, pat: Seq<char>) -> bool {
    exists|i: int| 0 <= i && i + pat.len() <= text.len() && #[trigger] text.subrange(i, i + pat.len()) == pat
}

/// Whether the output of the registry query names the login entry
/// (`todo-list`).
pub fn registry_has_entry(output: &str) -> (r: bool)
    ensures
        r == contains_text(output@, "todo-list"@),
{
    let cs = chars_of(output);
    let pc = chars_of("todo-list");
    if pc.len() > cs.len() {
        proof {
            assert forall|i: int| 0 <= i && i + pc@.len() <= cs@.len() implies #[trigger] cs@.subrange(i, i + pc@.len()) != pc@ by {}
        }
        return false;
    }
    let last = cs.len() - pc.len();
    let mut i: usize = 0;
    while i <= last
        invariant
            last + pc@.len() == cs@.len(),
            cs@ == output@,
            pc@ == "todo-list"@,
            forall|k: int| 0 <= k < i ==> #[trigger] cs@.subrange(k, k + pc@.len()) != pc@,
        decreases last + 1 - i,
    {
        let mut j: usize = 0;
        let mut same = true;
        while j < pc.len()
            invariant
                i <= last,
                last + pc@.len() == cs@.len(),
                i + pc.len() <= cs.len(),
                j <= pc.len(),
                same == (forall|m: int| 0 <= m < j ==> cs@[i + m] == pc@[m]),
            decreases pc.len() - j,
        {
            if cs[i + j] != pc[j] {
                same = false;
            }
            j = j + 1;
        }
        if same {
            assert(cs@.subrange(i as int, i + pc@.len()) =~= pc@);
            return true;
        }
        assert(cs@.subrange(i as int, i + pc@.len()) != pc@) by {
            let m = choose|m: int| 0 <= m < pc@.len() && cs@[i + m] != pc@[m];
            assert(cs@.subrange(i as int, i + pc@.len())[m] == cs@[i + m]);
        }
        if i == last {
            proof {
                assert forall|k: int| 0 <= k && k + pc@.len() <= cs@.len() implies #[trigger] cs@.subrange(k, k + pc@.len()) != pc@ by {
                    assert(k <= last);
                }
            }
            return false;
        }
        i = i + 1;
    }
    false
}

} // verus!

verus! {

/// Whether a step creates `table`.
pub open spec fn creates_table(step: SchemaStepV, table: Seq<char>) -> bool {
    match step {
        SchemaStepV::Create(sql) => has_prefix(sql, "CREATE TABLE IF NOT EXISTS "@ + table + "("@),
        _ => false,
    }
}

/// The table a step adds a column to, if it adds one.
pub open spec fn column_table(step: SchemaStepV) -> Option<Seq<char>> {
    match step {
        SchemaStepV::EnsureColumn { table, .. } => Some(table),
        _ => None,
    }
}

proof fn lemma_creates_projects()
    ensures
        creates_table(schema_plan()[1], "projects"@),
{
    reveal_strlit("CREATE TABLE IF NOT EXISTS projects(id TEXT PRIMARY KEY, name TEXT, color TEXT, summary TEXT, goal TEXT, sort_idx INTEGER)");
    reveal_strlit("CREATE TABLE IF NOT EXISTS ");
    reveal_strlit("projects");
    reveal_strlit("(");
    let sql = "CREATE TABLE IF NOT EXISTS projects(id TEXT PRIMARY KEY, name TEXT, color TEXT, summary TEXT, goal TEXT, sort_idx INTEGER)"@;
    assert(schema_plan()[1] == SchemaStepV::Create(sql));
    assert(sql.take(36) =~= "CREATE TABLE IF NOT EXISTS "@ + "projects"@ + "("@);
}

proof fn lemma_creates_tasks()
    ensures
        creates_table(schema_plan()[14], "tasks"@),
{
    reveal_strlit("CREATE TABLE IF NOT EXISTS tasks(id TEXT PRIMARY KEY, project_id TEXT, client_id TEXT, title TEXT, priority TEXT, due TEXT, note TEXT, done INTEGER, done_at INTEGER, status TEXT, created_at INTEGER, repeat TEXT, waiting INTEGER, waiting_for TEXT, waiting_since INTEGER, planned INTEGER, sort_idx INTEGER, tags TEXT, important INTEGER, note_id TEXT)");
    reveal_strlit("CREATE TABLE IF NOT EXISTS ");
    reveal_strlit("tasks");
    reveal_strlit("(");
    let sql = "CREATE TABLE IF NOT EXISTS tasks(id TEXT PRIMARY KEY, project_id TEXT, client_id TEXT, title TEXT, priority TEXT, due TEXT, note TEXT, done INTEGER, done_at INTEGER, status TEXT, created_at INTEGER, repeat TEXT, waiting INTEGER, waiting_for TEXT, waiting_since INTEGER, planned INTEGER, sort_idx INTEGER, tags TEXT, important INTEGER, note_id TEXT)"@;
    assert(schema_plan()[14] == SchemaStepV::Create(sql));
    assert(sql.take(33) =~= "CREATE TABLE IF NOT EXISTS "@ + "tasks"@ + "("@);
}

proof fn lemma_creates_subtasks()
    ensures
        creates_table(schema_plan()[15], "subtasks"@),
{
    reveal_strlit("CREATE TABLE IF NOT EXISTS subtasks(id TEXT PRIMARY KEY, task_id TEXT, title TEXT, done INTEGER, done_at INTEGER, sort_idx INTEGER, due TEXT, priority TEXT, note_id TEXT, status TEXT)");
    reveal_strlit("CREATE TABLE IF NOT EXISTS ");
    reveal_strlit("subtasks");
    reveal_strlit("(");
    let sql = "CREATE TABLE IF NOT EXISTS subtasks(id TEXT PRIMARY KEY, task_id TEXT, title TEXT, done INTEGER, done_at INTEGER, sort_idx INTEGER, due TEXT, priority TEXT, note_id TEXT, status TEXT)"@;
    assert(schema_plan()[15] == SchemaStepV::Create(sql));
    assert(sql.take(36) =~= "CREATE TABLE IF NOT EXISTS "@ + "subtasks"@ + "("@);
}

proof fn lemma_creates_notes()
    ensures
        creates_table(schema_plan()[18], "notes"@),
{
    reveal_strlit("CREATE TABLE IF NOT EXISTS notes(id TEXT PRIMARY KEY, title TEXT, cat TEXT, md TEXT, created_at INTEGER, updated_at INTEGER, pinned INTEGER, sort_idx INTEGER, tags TEXT)");
    reveal_strlit("CREATE TABLE IF NOT EXISTS ");
    reveal_strlit("notes");
    reveal_strlit("(");
    let sql = "CREATE TABLE IF NOT EXISTS notes(id TEXT PRIMARY KEY, title TEXT, cat TEXT, md TEXT, created_at INTEGER, updated_at INTEGER, pinned INTEGER, sort_idx INTEGER, tags TEXT)"@;
    assert(schema_plan()[18] == SchemaStepV::Create(sql));
    assert(sql.take(33) =~= "CREATE TABLE IF NOT EXISTS "@ + "notes"@ + "("@);
}

/// Every column the schema steps add to a table is added after a step
/// that creates that table, so on a new, empty database the table exists
/// when its columns are added.
pub proof fn law_columns_added_after_their_table()
    ensures
        forall|i: int|
            0 <= i < schema_plan().len() && (#[trigger] column_table(schema_plan()[i])) is Some ==> exists|j: int|
                0 <= j < i && creates_table(schema_plan()[j], column_table(schema_plan()[i])->0),
{
    lemma_creates_projects();
    lemma_creates_tasks();
    lemma_creates_subtasks();
    lemma_creates_notes();
    assert(schema_plan().len() == 32);
    assert forall|i: int|
        0 <= i < schema_plan().len() && (#[trigger] column_table(schema_plan()[i])) is Some implies exists|j: int|
        0 <= j < i && creates_table(schema_plan()[j], column_table(schema_plan()[i])->0) by {
        if i == 0 {
            assert(column_table(schema_plan()[0]) is None);
        } else if i == 1 {
            assert(column_table(schema_plan()[1]) is None);
        } else if i == 2 {
            assert(column_table(schema_plan()[2]) == Some("projects"@));
            assert(creates_table(schema_plan()[1], "projects"@));
        } else if i == 3 {
            assert(column_table(schema_plan()[3]) == Some("projects"@));
            assert(creates_table(schema_plan()[1], "projects"@));
        } else if i == 4 {
            assert(column_table(schema_plan()[4]) == Some("projects"@));
            assert(creates_table(schema_plan()[1], "projects"@));
        } else if i == 5 {
            assert(column_table(schema_plan()[5]) == Some("projects"@));
            assert(creates_table(schema_plan()[1], "projects"@));
        } else if i == 6 {
            assert(column_table(schema_plan()[6]) == Some("projects"@));
            assert(creates_table(schema_plan()[1], "projects"@));
        } else if i == 7 {
            assert(column_table(schema_plan()[7]) == Some("projects"@));
            assert(creates_table(schema_plan()[1], "projects"@));
        } else if i == 8 {
            assert(column_table(schema_plan()[8]) == Some("projects"@));
            assert(creates_table(schema_plan()[1], "projects"@));
        } else if i == 9 {
            assert(column_table(schema_plan()[9]) == Some("projects"@));
            assert(creates_table(schema_plan()[1], "projects"@));
        } else if i == 10 {
            assert(column_table(schema_plan()[10]) == Some("projects"@));
            assert(creates_table(schema_plan()[1], "projects"@));
        } else if i == 11 {
            assert(column_table(schema_plan()[11]) == Some("projects"@));
            assert(creates_table(schema_plan()[1], "projects"@));
        } else if i == 12 {
            assert(column_table(schema_plan()[12]) is None);
        } else if i == 13 {
            assert(column_table(schema_plan()[13]) is None);
        } else if i == 14 {
            assert(column_table(schema_plan()[14]) is None);
        } else if i == 15 {
            assert(column_table(schema_plan()[15]) is None);
        } else if i == 16 {
            assert(column_table(schema_plan()[16]) is None);
        } else if i == 17 {
            assert(column_table(schema_plan()[17]) is None);
        } else if i == 18 {
            assert(column_table(schema_plan()[18]) is None);
        } else if i == 19 {
            assert(column_table(schema_plan()[19]) is None);
        } else if i == 20 {
            assert(column_table(schema_plan()[20]) is None);
        } else if i == 21 {
            assert(column_table(schema_plan()[21]) == Some("tasks"@));
            assert(creates_table(schema_plan()[14], "tasks"@));
        } else if i == 22 {
            assert(column_table(schema_plan()[22]) == Some("tasks"@));
            assert(creates_table(schema_plan()[14], "tasks"@));
        } else if i == 23 {
            assert(column_table(schema_plan()[23]) == Some("tasks"@));
            assert(creates_table(schema_plan()[14], "tasks"@));
        } else if i == 24 {
            assert(column_table(schema_plan()[24]) == Some("tasks"@));
            assert(creates_table(schema_plan()[14], "tasks"@));
        } else if i == 25 {
            assert(column_table(schema_plan()[25]) == Some("subtasks"@));
            assert(creates_table(schema_plan()[15], "subtasks"@));
        } else if i == 26 {
            assert(column_table(schema_plan()[26]) == Some("subtasks"@));
            assert(creates_table(schema_plan()[15], "subtasks"@));
        } else if i == 27 {
            assert(column_table(schema_plan()[27]) == Some("subtasks"@));
            assert(creates_table(schema_plan()[15], "subtasks"@));
        } else if i == 28 {
            assert(column_table(schema_plan()[28]) == Some("subtasks"@));
            assert(creates_table(schema_plan()[15], "subtasks"@));
        } else if i == 29 {
            assert(column_table(schema_plan()[29]) == Some("notes"@));
            assert(creates_table(schema_plan()[18], "notes"@));
        } else if i == 30 {
            assert(column_table(schema_plan()[30]) is None);
        } else if i == 31 {
            assert(column_table(schema_plan()[31]) is None);
        }
    }
}

} // verus!

verus! {

/// Whether `sql` declares column `c` (as `(c ...` or `, c ...`).
pub open spec fn declares(sql: Seq<char>, c: Seq<char>) -> bool {
    contains_text(sql, "("@ + c + " "@) || contains_text(sql, ", "@ + c + " "@)
}

/// Whether `step` gives table `t` the column `c`: creates `t` declaring
/// `c`, or adds `c` to `t`.
pub open spec fn step_gives_column(step: SchemaStepV, t: Seq<char>, c: Seq<char>) -> bool {
    match step {
        SchemaStepV::Create(sql) => has_prefix(sql, "CREATE TABLE IF NOT EXISTS "@ + t + "("@) && declares(sql, c),
        SchemaStepV::EnsureColumn { table, column, .. } => table == t && column == c,
        SchemaStepV::SeedStages => false,
    }
}

/// Whether some step of the schema plan gives table `t` the column `c`.
pub open spec fn plan_gives_column(t: Seq<char>, c: Seq<char>) -> bool {
    exists|i: int| 0 <= i < schema_plan().len() && #[trigger] step_gives_column(schema_plan()[i], t, c)
}

proof fn lemma_projects_columns_created()
    ensures
        forall|k: int| 0 <= k < schema(Table::Projects).len() ==> plan_gives_column("projects"@, #[trigger] schema(Table::Projects)[k].name),
        plan_gives_column("projects"@, "sort_idx"@),
{
    reveal_strlit("CREATE TABLE IF NOT EXISTS ");
    reveal_strlit("projects");
    reveal_strlit("(");
    reveal_strlit(", ");
    reveal_strlit(" ");
    reveal_strlit("CREATE TABLE IF NOT EXISTS projects(id TEXT PRIMARY KEY, name TEXT, color TEXT, summary TEXT, goal TEXT, sort_idx INTEGER)");
    assert(schema_plan()[1] == SchemaStepV::Create("CREATE TABLE IF NOT EXISTS projects(id TEXT PRIMARY KEY, name TEXT, color TEXT, summary TEXT, goal TEXT, sort_idx INTEGER)"@));
    assert("CREATE TABLE IF NOT EXISTS projects(id TEXT PRIMARY KEY, name TEXT, color TEXT, summary TEXT, goal TEXT, sort_idx INTEGER)"@.take(36) =~= "CREATE TABLE IF NOT EXISTS "@ + "projects"@ + "("@);
    reveal_strlit("id");
    assert("CREATE TABLE IF NOT EXISTS projects(id TEXT PRIMARY KEY, name TEXT, color TEXT, summary TEXT, goal TEXT, sort_idx INTEGER)"@.subrange(35, 35 + ("("@ + "id"@ + " "@).len() as int) =~= "("@ + "id"@ + " "@);
    assert(contains_text("CREATE TABLE IF NOT EXISTS projects(id TEXT PRIMARY KEY, name TEXT, color TEXT, summary TEXT, goal TEXT, sort_idx INTEGER)"@, "("@ + "id"@ + " "@));
    assert(step_gives_column(schema_plan()[1], "projects"@, "id"@));
    reveal_strlit("name");
    assert("CREATE TABLE IF NOT EXISTS projects(id TEXT PRIMARY KEY, name TEXT, color TEXT, summary TEXT, goal TEXT, sort_idx INTEGER)"@.subrange(55, 55 + (", "@ + "name"@ + " "@).len() as int) =~= ", "@ + "name"@ + " "@);
    assert(contains_text("CREATE TABLE IF NOT EXISTS projects(id TEXT PRIMARY KEY, name TEXT, color TEXT, summary TEXT, goal TEXT, sort_idx INTEGER)"@, ", "@ + "name"@ + " "@));
    assert(step_gives_column(schema_plan()[1], "projects"@, "name"@));
    reveal_strlit("color");
    assert("CREATE TABLE IF NOT EXISTS projects(id TEXT PRIMARY KEY, name TEXT, color TEXT, summary TEXT, goal TEXT, sort_idx INTEGER)"@.subrange(66, 66 + (", "@ + "color"@ + " "@).len() as int) =~= ", "@ + "color"@ + " "@);
    assert(contains_text("CREATE TABLE IF NOT EXISTS projects(id TEXT PRIMARY KEY, name TEXT, color TEXT, summary TEXT, goal TEXT, sort_idx INTEGER)"@, ", "@ + "color"@ + " "@));
    assert(step_gives_column(schema_plan()[1], "projects"@, "color"@));
    reveal_strlit("summary");
    assert("CREATE TABLE IF NOT EXISTS projects(id TEXT PRIMARY KEY, name TEXT, color TEXT, summary TEXT, goal TEXT, sort_idx INTEGER)"@.subrange(78, 78 + (", "@ + "summary"@ + " "@).len() as int) =~= ", "@ + "summary"@ + " "@);
    assert(contains_text("CREATE TABLE IF NOT EXISTS projects(id TEXT PRIMARY KEY, name TEXT, color TEXT, summary TEXT, goal TEXT, sort_idx INTEGER)"@, ", "@ + "summary"@ + " "@));
    assert(step_gives_column(schema_plan()[1], "projects"@, "summary"@));
    reveal_strlit("goal");
    assert("CREATE TABLE IF NOT EXISTS projects(id TEXT PRIMARY KEY, name TEXT, color TEXT, summary TEXT, goal TEXT, sort_idx INTEGER)"@.subrange(92, 92 + (", "@ + "goal"@ + " "@).len() as int) =~= ", "@ + "goal"@ + " "@);
    assert(contains_text("CREATE TABLE IF NOT EXISTS projects(id TEXT PRIMARY KEY, name TEXT, color TEXT, summary TEXT, goal TEXT, sort_idx INTEGER)"@, ", "@ + "goal"@ + " "@));
    assert(step_gives_column(schema_plan()[1], "projects"@, "goal"@));
    reveal_strlit("status");
    assert(step_gives_column(schema_plan()[4], "projects"@, "status"@));
    reveal_strlit("landing");
    assert(step_gives_column(schema_plan()[5], "projects"@, "landing"@));
    reveal_strlit("isContract");
    assert(step_gives_column(schema_plan()[6], "projects"@, "isContract"@));
    reveal_strlit("signDate");
    assert(step_gives_column(schema_plan()[7], "projects"@, "signDate"@));
    reveal_strlit("landYear");
    assert(step_gives_column(schema_plan()[8], "projects"@, "landYear"@));
    reveal_strlit("budget");
    assert(step_gives_column(schema_plan()[9], "projects"@, "budget"@));
    reveal_strlit("contract");
    assert(step_gives_column(schema_plan()[10], "projects"@, "contract"@));
    reveal_strlit("client_id");
    assert(step_gives_column(schema_plan()[11], "projects"@, "client_id"@));
    reveal_strlit("sort_idx");
    assert("CREATE TABLE IF NOT EXISTS projects(id TEXT PRIMARY KEY, name TEXT, color TEXT, summary TEXT, goal TEXT, sort_idx INTEGER)"@.subrange(103, 103 + (", "@ + "sort_idx"@ + " "@).len() as int) =~= ", "@ + "sort_idx"@ + " "@);
    assert(contains_text("CREATE TABLE IF NOT EXISTS projects(id TEXT PRIMARY KEY, name TEXT, color TEXT, summary TEXT, goal TEXT, sort_idx INTEGER)"@, ", "@ + "sort_idx"@ + " "@));
    assert(step_gives_column(schema_plan()[1], "projects"@, "sort_idx"@));
    assert forall|k: int| 0 <= k < schema(Table::Projects).len() implies plan_gives_column("projects"@, #[trigger] schema(Table::Projects)[k].name) by {
        if k == 0 {
            assert(schema(Table::Projects)[0].name == "id"@);
        } else if k == 1 {
            assert(schema(Table::Projects)[1].name == "name"@);
        } else if k == 2 {
            assert(schema(Table::Projects)[2].name == "color"@);
        } else if k == 3 {
            assert(schema(Table::Projects)[3].name == "summary"@);
        } else if k == 4 {
            assert(schema(Table::Projects)[4].name == "goal"@);
        } else if k == 5 {
            assert(schema(Table::Projects)[5].name == "status"@);
        } else if k == 6 {
            assert(schema(Table::Projects)[6].name == "landing"@);
        } else if k == 7 {
            assert(schema(Table::Projects)[7].name == "isContract"@);
        } else if k == 8 {
            assert(schema(Table::Projects)[8].name == "signDate"@);
        } else if k == 9 {
            assert(schema(Table::Projects)[9].name == "landYear"@);
        } else if k == 10 {
            assert(schema(Table::Projects)[10].name == "budget"@);
        } else if k == 11 {
            assert(schema(Table::Projects)[11].name == "contract"@);
        } else if k == 12 {
            assert(schema(Table::Projects)[12].name == "client_id"@);
        }
    }
}
proof fn lemma_proj_stages_columns_created()
    ensures
        forall|k: int| 0 <= k < schema(Table::ProjStages).len() ==> plan_gives_column("proj_stages"@, #[trigger] schema(Table::ProjStages)[k].name),
{
    reveal_strlit("CREATE TABLE IF NOT EXISTS ");
    reveal_strlit("proj_stages");
    reveal_strlit("(");
    reveal_strlit(", ");
    reveal_strlit(" ");
    reveal_strlit("CREATE TABLE IF NOT EXISTS proj_stages(id TEXT PRIMARY KEY, name TEXT, ord INTEGER, landed INTEGER)");
    assert(schema_plan()[12] == SchemaStepV::Create("CREATE TABLE IF NOT EXISTS proj_stages(id TEXT PRIMARY KEY, name TEXT, ord INTEGER, landed INTEGER)"@));
    assert("CREATE TABLE IF NOT EXISTS proj_stages(id TEXT PRIMARY KEY, name TEXT, ord INTEGER, landed INTEGER)"@.take(39) =~= "CREATE TABLE IF NOT EXISTS "@ + "proj_stages"@ + "("@);
    reveal_strlit("id");
    assert("CREATE TABLE IF NOT EXISTS proj_stages(id TEXT PRIMARY KEY, name TEXT, ord INTEGER, landed INTEGER)"@.subrange(38, 38 + ("("@ + "id"@ + " "@).len() as int) =~= "("@ + "id"@ + " "@);
    assert(contains_text("CREATE TABLE IF NOT EXISTS proj_stages(id TEXT PRIMARY KEY, name TEXT, ord INTEGER, landed INTEGER)"@, "("@ + "id"@ + " "@));
    assert(step_gives_column(schema_plan()[12], "proj_stages"@, "id"@));
    reveal_strlit("name");
    assert("CREATE TABLE IF NOT EXISTS proj_stages(id TEXT PRIMARY KEY, name TEXT, ord INTEGER, landed INTEGER)"@.subrange(58, 58 + (", "@ + "name"@ + " "@).len() as int) =~= ", "@ + "name"@ + " "@);
    assert(contains_text("CREATE TABLE IF NOT EXISTS proj_stages(id TEXT PRIMARY KEY, name TEXT, ord INTEGER, landed INTEGER)"@, ", "@ + "name"@ + " "@));
    assert(step_gives_column(schema_plan()[12], "proj_stages"@, "name"@));
    reveal_strlit("ord");
    assert("CREATE TABLE IF NOT EXISTS proj_stages(id TEXT PRIMARY KEY, name TEXT, ord INTEGER, landed INTEGER)"@.subrange(69, 69 + (", "@ + "ord"@ + " "@).len() as int) =~= ", "@ + "ord"@ + " "@);
    assert(contains_text("CREATE TABLE IF NOT EXISTS proj_stages(id TEXT PRIMARY KEY, name TEXT, ord INTEGER, landed INTEGER)"@, ", "@ + "ord"@ + " "@));
    assert(step_gives_column(schema_plan()[12], "proj_stages"@, "ord"@));
    reveal_strlit("landed");
    assert("CREATE TABLE IF NOT EXISTS proj_stages(id TEXT PRIMARY KEY, name TEXT, ord INTEGER, landed INTEGER)"@.subrange(82, 82 + (", "@ + "landed"@ + " "@).len() as int) =~= ", "@ + "landed"@ + " "@);
    assert(contains_text("CREATE TABLE IF NOT EXISTS proj_stages(id TEXT PRIMARY KEY, name TEXT, ord INTEGER, landed INTEGER)"@, ", "@ + "landed"@ + " "@));
    assert(step_gives_column(schema_plan()[12], "proj_stages"@, "landed"@));
    assert forall|k: int| 0 <= k < schema(Table::ProjStages).len() implies plan_gives_column("proj_stages"@, #[trigger] schema(Table::ProjStages)[k].name) by {
        if k == 0 {
            assert(schema(Table::ProjStages)[0].name == "id"@);
        } else if k == 1 {
            assert(schema(Table::ProjStages)[1].name == "name"@);
        } else if k == 2 {
            assert(schema(Table::ProjStages)[2].name == "ord"@);
        } else if k == 3 {
            assert(schema(Table::ProjStages)[3].name == "landed"@);
        }
    }
}
proof fn lemma_clients_columns_created()
    ensures
        forall|k: int| 0 <= k < schema(Table::Clients).len() ==> plan_gives_column("clients"@, #[trigger] schema(Table::Clients)[k].name),
        plan_gives_column("clients"@, "sort_idx"@),
{
    reveal_strlit("CREATE TABLE IF NOT EXISTS ");
    reveal_strlit("clients");
    reveal_strlit("(");
    reveal_strlit(", ");
    reveal_strlit(" ");
    reveal_strlit("CREATE TABLE IF NOT EXISTS clients(id TEXT PRIMARY KEY, name TEXT, color TEXT, category TEXT, sort_idx INTEGER)");
    assert(schema_plan()[16] == SchemaStepV::Create("CREATE TABLE IF NOT EXISTS clients(id TEXT PRIMARY KEY, name TEXT, color TEXT, category TEXT, sort_idx INTEGER)"@));
    assert("CREATE TABLE IF NOT EXISTS clients(id TEXT PRIMARY KEY, name TEXT, color TEXT, category TEXT, sort_idx INTEGER)"@.take(35) =~= "CREATE TABLE IF NOT EXISTS "@ + "clients"@ + "("@);
    reveal_strlit("id");
    assert("CREATE TABLE IF NOT EXISTS clients(id TEXT PRIMARY KEY, name TEXT, color TEXT, category TEXT, sort_idx INTEGER)"@.subrange(34, 34 + ("("@ + "id"@ + " "@).len() as int) =~= "("@ + "id"@ + " "@);
    assert(contains_text("CREATE TABLE IF NOT EXISTS clients(id TEXT PRIMARY KEY, name TEXT, color TEXT, category TEXT, sort_idx INTEGER)"@, "("@ + "id"@ + " "@));
    assert(step_gives_column(schema_plan()[16], "clients"@, "id"@));
    reveal_strlit("name");
    assert("CREATE TABLE IF NOT EXISTS clients(id TEXT PRIMARY KEY, name TEXT, color TEXT, category TEXT, sort_idx INTEGER)"@.subrange(54, 54 + (", "@ + "name"@ + " "@).len() as int) =~= ", "@ + "name"@ + " "@);
    assert(contains_text("CREATE TABLE IF NOT EXISTS clients(id TEXT PRIMARY KEY, name TEXT, color TEXT, category TEXT, sort_idx INTEGER)"@, ", "@ + "name"@ + " "@));
    assert(step_gives_column(schema_plan()[16], "clients"@, "name"@));
    reveal_strlit("color");
    assert("CREATE TABLE IF NOT EXISTS clients(id TEXT PRIMARY KEY, name TEXT, color TEXT, category TEXT, sort_idx INTEGER)"@.subrange(65, 65 + (", "@ + "color"@ + " "@).len() as int) =~= ", "@ + "color"@ + " "@);
    assert(contains_text("CREATE TABLE IF NOT EXISTS clients(id TEXT PRIMARY KEY, name TEXT, color TEXT, category TEXT, sort_idx INTEGER)"@, ", "@ + "color"@ + " "@));
    assert(step_gives_column(schema_plan()[16], "clients"@, "color"@));
    reveal_strlit("category");
    assert("CREATE TABLE IF NOT EXISTS clients(id TEXT PRIMARY KEY, name TEXT, color TEXT, category TEXT, sort_idx INTEGER)"@.subrange(77, 77 + (", "@ + "category"@ + " "@).len() as int) =~= ", "@ + "category"@ + " "@);
    assert(contains_text("CREATE TABLE IF NOT EXISTS clients(id TEXT PRIMARY KEY, name TEXT, color TEXT, category TEXT, sort_idx INTEGER)"@, ", "@ + "category"@ + " "@));
    assert(step_gives_column(schema_plan()[16], "clients"@, "category"@));
    reveal_strlit("sort_idx");
    assert("CREATE TABLE IF NOT EXISTS clients(id TEXT PRIMARY KEY, name TEXT, color TEXT, category TEXT, sort_idx INTEGER)"@.subrange(92, 92 + (", "@ + "sort_idx"@ + " "@).len() as int) =~= ", "@ + "sort_idx"@ + " "@);
    assert(contains_text("CREATE TABLE IF NOT EXISTS clients(id TEXT PRIMARY KEY, name TEXT, color TEXT, category TEXT, sort_idx INTEGER)"@, ", "@ + "sort_idx"@ + " "@));
    assert(step_gives_column(schema_plan()[16], "clients"@, "sort_idx"@));
    assert forall|k: int| 0 <= k < schema(Table::Clients).len() implies plan_gives_column("clients"@, #[trigger] schema(Table::Clients)[k].name) by {
        if k == 0 {
            assert(schema(Table::Clients)[0].name == "id"@);
        } else if k == 1 {
            assert(schema(Table::Clients)[1].name == "name"@);
        } else if k == 2 {
            assert(schema(Table::Clients)[2].name == "color"@);
        } else if k == 3 {
            assert(schema(Table::Clients)[3].name == "category"@);
        }
    }
}
proof fn lemma_tags_columns_created()
    ensures
        forall|k: int| 0 <= k < schema(Table::Tags).len() ==> plan_gives_column("tags"@, #[trigger] schema(Table::Tags)[k].name),
        plan_gives_column("tags"@, "sort_idx"@),
{
    reveal_strlit("CREATE TABLE IF NOT EXISTS ");
    reveal_strlit("tags");
    reveal_strlit("(");
    reveal_strlit(", ");
    reveal_strlit(" ");
    reveal_strlit("CREATE TABLE IF NOT EXISTS tags(id TEXT PRIMARY KEY, name TEXT, color TEXT, category TEXT, sort_idx INTEGER)");
    assert(schema_plan()[17] == SchemaStepV::Create("CREATE TABLE IF NOT EXISTS tags(id TEXT PRIMARY KEY, name TEXT, color TEXT, category TEXT, sort_idx INTEGER)"@));
    assert("CREATE TABLE IF NOT EXISTS tags(id TEXT PRIMARY KEY, name TEXT, color TEXT, category TEXT, sort_idx INTEGER)"@.take(32) =~= "CREATE TABLE IF NOT EXISTS "@ + "tags"@ + "("@);
    reveal_strlit("id");
    assert("CREATE TABLE IF NOT EXISTS tags(id TEXT PRIMARY KEY, name TEXT, color TEXT, category TEXT, sort_idx INTEGER)"@.subrange(31, 31 + ("("@ + "id"@ + " "@).len() as int) =~= "("@ + "id"@ + " "@);
    assert(contains_text("CREATE TABLE IF NOT EXISTS tags(id TEXT PRIMARY KEY, name TEXT, color TEXT, category TEXT, sort_idx INTEGER)"@, "("@ + "id"@ + " "@));
    assert(step_gives_column(schema_plan()[17], "tags"@, "id"@));
    reveal_strlit("name");
    assert("CREATE TABLE IF NOT EXISTS tags(id TEXT PRIMARY KEY, name TEXT, color TEXT, category TEXT, sort_idx INTEGER)"@.subrange(51, 51 + (", "@ + "name"@ + " "@).len() as int) =~= ", "@ + "name"@ + " "@);
    assert(contains_text("CREATE TABLE IF NOT EXISTS tags(id TEXT PRIMARY KEY, name TEXT, color TEXT, category TEXT, sort_idx INTEGER)"@, ", "@ + "name"@ + " "@));
    assert(step_gives_column(schema_plan()[17], "tags"@, "name"@));
    reveal_strlit("color");
    assert("CREATE TABLE IF NOT EXISTS tags(id TEXT PRIMARY KEY, name TEXT, color TEXT, category TEXT, sort_idx INTEGER)"@.subrange(62, 62 + (", "@ + "color"@ + " "@).len() as int) =~= ", "@ + "color"@ + " "@);
    assert(contains_text("CREATE TABLE IF NOT EXISTS tags(id TEXT PRIMARY KEY, name TEXT, color TEXT, category TEXT, sort_idx INTEGER)"@, ", "@ + "color"@ + " "@));
    assert(step_gives_column(schema_plan()[17], "tags"@, "color"@));
    reveal_strlit("category");
    assert("CREATE TABLE IF NOT EXISTS tags(id TEXT PRIMARY KEY, name TEXT, color TEXT, category TEXT, sort_idx INTEGER)"@.subrange(74, 74 + (", "@ + "category"@ + " "@).len() as int) =~= ", "@ + "category"@ + " "@);
    assert(contains_text("CREATE TABLE IF NOT EXISTS tags(id TEXT PRIMARY KEY, name TEXT, color TEXT, category TEXT, sort_idx INTEGER)"@, ", "@ + "category"@ + " "@));
    assert(step_gives_column(schema_plan()[17], "tags"@, "category"@));
    reveal_strlit("sort_idx");
    assert("CREATE TABLE IF NOT EXISTS tags(id TEXT PRIMARY KEY, name TEXT, color TEXT, category TEXT, sort_idx INTEGER)"@.subrange(89, 89 + (", "@ + "sort_idx"@ + " "@).len() as int) =~= ", "@ + "sort_idx"@ + " "@);
    assert(contains_text("CREATE TABLE IF NOT EXISTS tags(id TEXT PRIMARY KEY, name TEXT, color TEXT, category TEXT, sort_idx INTEGER)"@, ", "@ + "sort_idx"@ + " "@));
    assert(step_gives_column(schema_plan()[17], "tags"@, "sort_idx"@));
    assert forall|k: int| 0 <= k < schema(Table::Tags).len() implies plan_gives_column("tags"@, #[trigger] schema(Table::Tags)[k].name) by {
        if k == 0 {
            assert(schema(Table::Tags)[0].name == "id"@);
        } else if k == 1 {
            assert(schema(Table::Tags)[1].name == "name"@);
        } else if k == 2 {
            assert(schema(Table::Tags)[2].name == "color"@);
        } else if k == 3 {
            assert(schema(Table::Tags)[3].name == "category"@);
        }
    }
}
proof fn lemma_notes_columns_created()
    ensures
        forall|k: int| 0 <= k < schema(Table::Notes).len() ==> plan_gives_column("notes"@, #[trigger] schema(Table::Notes)[k].name),
        plan_gives_column("notes"@, "sort_idx"@),
{
    reveal_strlit("CREATE TABLE IF NOT EXISTS ");
    reveal_strlit("notes");
    reveal_strlit("(");
    reveal_strlit(", ");
    reveal_strlit(" ");
    reveal_strlit("CREATE TABLE IF NOT EXISTS notes(id TEXT PRIMARY KEY, title TEXT, cat TEXT, md TEXT, created_at INTEGER, updated_at INTEGER, pinned INTEGER, sort_idx INTEGER, tags TEXT)");
    assert(schema_plan()[18] == SchemaStepV::Create("CREATE TABLE IF NOT EXISTS notes(id TEXT PRIMARY KEY, title TEXT, cat TEXT, md TEXT, created_at INTEGER, updated_at INTEGER, pinned INTEGER, sort_idx INTEGER, tags TEXT)"@));
    assert("CREATE TABLE IF NOT EXISTS notes(id TEXT PRIMARY KEY, title TEXT, cat TEXT, md TEXT, created_at INTEGER, updated_at INTEGER, pinned INTEGER, sort_idx INTEGER, tags TEXT)"@.take(33) =~= "CREATE TABLE IF NOT EXISTS "@ + "notes"@ + "("@);
    reveal_strlit("id");
    assert("CREATE TABLE IF NOT EXISTS notes(id TEXT PRIMARY KEY, title TEXT, cat TEXT, md TEXT, created_at INTEGER, updated_at INTEGER, pinned INTEGER, sort_idx INTEGER, tags TEXT)"@.subrange(32, 32 + ("("@ + "id"@ + " "@).len() as int) =~= "("@ + "id"@ + " "@);
    assert(contains_text("CREATE TABLE IF NOT EXISTS notes(id TEXT PRIMARY KEY, title TEXT, cat TEXT, md TEXT, created_at INTEGER, updated_at INTEGER, pinned INTEGER, sort_idx INTEGER, tags TEXT)"@, "("@ + "id"@ + " "@));
    assert(step_gives_column(schema_plan()[18], "notes"@, "id"@));
    reveal_strlit("title");
    assert("CREATE TABLE IF NOT EXISTS notes(id TEXT PRIMARY KEY, title TEXT, cat TEXT, md TEXT, created_at INTEGER, updated_at INTEGER, pinned INTEGER, sort_idx INTEGER, tags TEXT)"@.subrange(52, 52 + (", "@ + "title"@ + " "@).len() as int) =~= ", "@ + "title"@ + " "@);
    assert(contains_text("CREATE TABLE IF NOT EXISTS notes(id TEXT PRIMARY KEY, title TEXT, cat TEXT, md TEXT, created_at INTEGER, updated_at INTEGER, pinned INTEGER, sort_idx INTEGER, tags TEXT)"@, ", "@ + "title"@ + " "@));
    assert(step_gives_column(schema_plan()[18], "notes"@, "title"@));
    reveal_strlit("cat");
    assert("CREATE TABLE IF NOT EXISTS notes(id TEXT PRIMARY KEY, title TEXT, cat TEXT, md TEXT, created_at INTEGER, updated_at INTEGER, pinned INTEGER, sort_idx INTEGER, tags TEXT)"@.subrange(64, 64 + (", "@ + "cat"@ + " "@).len() as int) =~= ", "@ + "cat"@ + " "@);
    assert(contains_text("CREATE TABLE IF NOT EXISTS notes(id TEXT PRIMARY KEY, title TEXT, cat TEXT, md TEXT, created_at INTEGER, updated_at INTEGER, pinned INTEGER, sort_idx INTEGER, tags TEXT)"@, ", "@ + "cat"@ + " "@));
    assert(step_gives_column(schema_plan()[18], "notes"@, "cat"@));
    reveal_strlit("md");
    assert("CREATE TABLE IF NOT EXISTS notes(id TEXT PRIMARY KEY, title TEXT, cat TEXT, md TEXT, created_at INTEGER, updated_at INTEGER, pinned INTEGER, sort_idx INTEGER, tags TEXT)"@.subrange(74, 74 + (", "@ + "md"@ + " "@).len() as int) =~= ", "@ + "md"@ + " "@);
    assert(contains_text("CREATE TABLE IF NOT EXISTS notes(id TEXT PRIMARY KEY, title TEXT, cat TEXT, md TEXT, created_at INTEGER, updated_at INTEGER, pinned INTEGER, sort_idx INTEGER, tags TEXT)"@, ", "@ + "md"@ + " "@));
    assert(step_gives_column(schema_plan()[18], "notes"@, "md"@));
    reveal_strlit("created_at");
    assert("CREATE TABLE IF NOT EXISTS notes(id TEXT PRIMARY KEY, title TEXT, cat TEXT, md TEXT, created_at INTEGER, updated_at INTEGER, pinned INTEGER, sort_idx INTEGER, tags TEXT)"@.subrange(83, 83 + (", "@ + "created_at"@ + " "@).len() as int) =~= ", "@ + "created_at"@ + " "@);
    assert(contains_text("CREATE TABLE IF NOT EXISTS notes(id TEXT PRIMARY KEY, title TEXT, cat TEXT, md TEXT, created_at INTEGER, updated_at INTEGER, pinned INTEGER, sort_idx INTEGER, tags TEXT)"@, ", "@ + "created_at"@ + " "@));
    assert(step_gives_column(schema_plan()[18], "notes"@, "created_at"@));
    reveal_strlit("updated_at");
    assert("CREATE TABLE IF NOT EXISTS notes(id TEXT PRIMARY KEY, title TEXT, cat TEXT, md TEXT, created_at INTEGER, updated_at INTEGER, pinned INTEGER, sort_idx INTEGER, tags TEXT)"@.subrange(103, 103 + (", "@ + "updated_at"@ + " "@).len() as int) =~= ", "@ + "updated_at"@ + " "@);
    assert(contains_text("CREATE TABLE IF NOT EXISTS notes(id TEXT PRIMARY KEY, title TEXT, cat TEXT, md TEXT, created_at INTEGER, updated_at INTEGER, pinned INTEGER, sort_idx INTEGER, tags TEXT)"@, ", "@ + "updated_at"@ + " "@));
    assert(step_gives_column(schema_plan()[18], "notes"@, "updated_at"@));
    reveal_strlit("pinned");
    assert("CREATE TABLE IF NOT EXISTS notes(id TEXT PRIMARY KEY, title TEXT, cat TEXT, md TEXT, created_at INTEGER, updated_at INTEGER, pinned INTEGER, sort_idx INTEGER, tags TEXT)"@.subrange(123, 123 + (", "@ + "pinned"@ + " "@).len() as int) =~= ", "@ + "pinned"@ + " "@);
    assert(contains_text("CREATE TABLE IF NOT EXISTS notes(id TEXT PRIMARY KEY, title TEXT, cat TEXT, md TEXT, created_at INTEGER, updated_at INTEGER, pinned INTEGER, sort_idx INTEGER, tags TEXT)"@, ", "@ + "pinned"@ + " "@));
    assert(step_gives_column(schema_plan()[18], "notes"@, "pinned"@));
    reveal_strlit("tags");
    assert("CREATE TABLE IF NOT EXISTS notes(id TEXT PRIMARY KEY, title TEXT, cat TEXT, md TEXT, created_at INTEGER, updated_at INTEGER, pinned INTEGER, sort_idx INTEGER, tags TEXT)"@.subrange(157, 157 + (", "@ + "tags"@ + " "@).len() as int) =~= ", "@ + "tags"@ + " "@);
    assert(contains_text("CREATE TABLE IF NOT EXISTS notes(id TEXT PRIMARY KEY, title TEXT, cat TEXT, md TEXT, created_at INTEGER, updated_at INTEGER, pinned INTEGER, sort_idx INTEGER, tags TEXT)"@, ", "@ + "tags"@ + " "@));
    assert(step_gives_column(schema_plan()[18], "notes"@, "tags"@));
    reveal_strlit("sort_idx");
    assert("CREATE TABLE IF NOT EXISTS notes(id TEXT PRIMARY KEY, title TEXT, cat TEXT, md TEXT, created_at INTEGER, updated_at INTEGER, pinned INTEGER, sort_idx INTEGER, tags TEXT)"@.subrange(139, 139 + (", "@ + "sort_idx"@ + " "@).len() as int) =~= ", "@ + "sort_idx"@ + " "@);
    assert(contains_text("CREATE TABLE IF NOT EXISTS notes(id TEXT PRIMARY KEY, title TEXT, cat TEXT, md TEXT, created_at INTEGER, updated_at INTEGER, pinned INTEGER, sort_idx INTEGER, tags TEXT)"@, ", "@ + "sort_idx"@ + " "@));
    assert(step_gives_column(schema_plan()[18], "notes"@, "sort_idx"@));
    assert forall|k: int| 0 <= k < schema(Table::Notes).len() implies plan_gives_column("notes"@, #[trigger] schema(Table::Notes)[k].name) by {
        if k == 0 {
            assert(schema(Table::Notes)[0].name == "id"@);
        } else if k == 1 {
            assert(schema(Table::Notes)[1].name == "title"@);
        } else if k == 2 {
            assert(schema(Table::Notes)[2].name == "cat"@);
        } else if k == 3 {
            assert(schema(Table::Notes)[3].name == "md"@);
        } else if k == 4 {
            assert(schema(Table::Notes)[4].name == "created_at"@);
        } else if k == 5 {
            assert(schema(Table::Notes)[5].name == "updated_at"@);
        } else if k == 6 {
            assert(schema(Table::Notes)[6].name == "pinned"@);
        } else if k == 7 {
            assert(schema(Table::Notes)[7].name == "tags"@);
        }
    }
}
proof fn lemma_smart_lists_columns_created()
    ensures
        forall|k: int| 0 <= k < schema(Table::SmartLists).len() ==> plan_gives_column("smart_lists"@, #[trigger] schema(Table::SmartLists)[k].name),
        plan_gives_column("smart_lists"@, "sort_idx"@),
{
    reveal_strlit("CREATE TABLE IF NOT EXISTS ");
    reveal_strlit("smart_lists");
    reveal_strlit("(");
    reveal_strlit(", ");
    reveal_strlit(" ");
    reveal_strlit("CREATE TABLE IF NOT EXISTS smart_lists(id TEXT PRIMARY KEY, name TEXT, query TEXT, sort_idx INTEGER)");
    assert(schema_plan()[20] == SchemaStepV::Create("CREATE TABLE IF NOT EXISTS smart_lists(id TEXT PRIMARY KEY, name TEXT, query TEXT, sort_idx INTEGER)"@));
    assert("CREATE TABLE IF NOT EXISTS smart_lists(id TEXT PRIMARY KEY, name TEXT, query TEXT, sort_idx INTEGER)"@.take(39) =~= "CREATE TABLE IF NOT EXISTS "@ + "smart_lists"@ + "("@);
    reveal_strlit("id");
    assert("CREATE TABLE IF NOT EXISTS smart_lists(id TEXT PRIMARY KEY, name TEXT, query TEXT, sort_idx INTEGER)"@.subrange(38, 38 + ("("@ + "id"@ + " "@).len() as int) =~= "("@ + "id"@ + " "@);
    assert(contains_text("CREATE TABLE IF NOT EXISTS smart_lists(id TEXT PRIMARY KEY, name TEXT, query TEXT, sort_idx INTEGER)"@, "("@ + "id"@ + " "@));
    assert(step_gives_column(schema_plan()[20], "smart_lists"@, "id"@));
    reveal_strlit("name");
    assert("CREATE TABLE IF NOT EXISTS smart_lists(id TEXT PRIMARY KEY, name TEXT, query TEXT, sort_idx INTEGER)"@.subrange(58, 58 + (", "@ + "name"@ + " "@).len() as int) =~= ", "@ + "name"@ + " "@);
    assert(contains_text("CREATE TABLE IF NOT EXISTS smart_lists(id TEXT PRIMARY KEY, name TEXT, query TEXT, sort_idx INTEGER)"@, ", "@ + "name"@ + " "@));
    assert(step_gives_column(schema_plan()[20], "smart_lists"@, "name"@));
    reveal_strlit("query");
    assert("CREATE TABLE IF NOT EXISTS smart_lists(id TEXT PRIMARY KEY, name TEXT, query TEXT, sort_idx INTEGER)"@.subrange(69, 69 + (", "@ + "query"@ + " "@).len() as int) =~= ", "@ + "query"@ + " "@);
    assert(contains_text("CREATE TABLE IF NOT EXISTS smart_lists(id TEXT PRIMARY KEY, name TEXT, query TEXT, sort_idx INTEGER)"@, ", "@ + "query"@ + " "@));
    assert(step_gives_column(schema_plan()[20], "smart_lists"@, "query"@));
    reveal_strlit("sort_idx");
    assert("CREATE TABLE IF NOT EXISTS smart_lists(id TEXT PRIMARY KEY, name TEXT, query TEXT, sort_idx INTEGER)"@.subrange(81, 81 + (", "@ + "sort_idx"@ + " "@).len() as int) =~= ", "@ + "sort_idx"@ + " "@);
    assert(contains_text("CREATE TABLE IF NOT EXISTS smart_lists(id TEXT PRIMARY KEY, name TEXT, query TEXT, sort_idx INTEGER)"@, ", "@ + "sort_idx"@ + " "@));
    assert(step_gives_column(schema_plan()[20], "smart_lists"@, "sort_idx"@));
    assert forall|k: int| 0 <= k < schema(Table::SmartLists).len() implies plan_gives_column("smart_lists"@, #[trigger] schema(Table::SmartLists)[k].name) by {
        if k == 0 {
            assert(schema(Table::SmartLists)[0].name == "id"@);
        } else if k == 1 {
            assert(schema(Table::SmartLists)[1].name == "name"@);
        } else if k == 2 {
            assert(schema(Table::SmartLists)[2].name == "query"@);
        }
    }
}
proof fn lemma_note_cats_columns_created()
    ensures
        forall|k: int| 0 <= k < schema(Table::NoteCats).len() ==> plan_gives_column("note_cats"@, #[trigger] schema(Table::NoteCats)[k].name),
        plan_gives_column("note_cats"@, "sort_idx"@),
{
    reveal_strlit("CREATE TABLE IF NOT EXISTS ");
    reveal_strlit("note_cats");
    reveal_strlit("(");
    reveal_strlit(", ");
    reveal_strlit(" ");
    reveal_strlit("CREATE TABLE IF NOT EXISTS note_cats(name TEXT PRIMARY KEY, sort_idx INTEGER)");
    assert(schema_plan()[19] == SchemaStepV::Create("CREATE TABLE IF NOT EXISTS note_cats(name TEXT PRIMARY KEY, sort_idx INTEGER)"@));
    assert("CREATE TABLE IF NOT EXISTS note_cats(name TEXT PRIMARY KEY, sort_idx INTEGER)"@.take(37) =~= "CREATE TABLE IF NOT EXISTS "@ + "note_cats"@ + "("@);
    reveal_strlit("name");
    assert("CREATE TABLE IF NOT EXISTS note_cats(name TEXT PRIMARY KEY, sort_idx INTEGER)"@.subrange(36, 36 + ("("@ + "name"@ + " "@).len() as int) =~= "("@ + "name"@ + " "@);
    assert(contains_text("CREATE TABLE IF NOT EXISTS note_cats(name TEXT PRIMARY KEY, sort_idx INTEGER)"@, "("@ + "name"@ + " "@));
    assert(step_gives_column(schema_plan()[19], "note_cats"@, "name"@));
    reveal_strlit("sort_idx");
    assert("CREATE TABLE IF NOT EXISTS note_cats(name TEXT PRIMARY KEY, sort_idx INTEGER)"@.subrange(58, 58 + (", "@ + "sort_idx"@ + " "@).len() as int) =~= ", "@ + "sort_idx"@ + " "@);
    assert(contains_text("CREATE TABLE IF NOT EXISTS note_cats(name TEXT PRIMARY KEY, sort_idx INTEGER)"@, ", "@ + "sort_idx"@ + " "@));
    assert(step_gives_column(schema_plan()[19], "note_cats"@, "sort_idx"@));
    assert forall|k: int| 0 <= k < schema(Table::NoteCats).len() implies plan_gives_column("note_cats"@, #[trigger] schema(Table::NoteCats)[k].name) by {
        if k == 0 {
            assert(schema(Table::NoteCats)[0].name == "name"@);
        }
    }
}
proof fn lemma_tasks_columns_created()
    ensures
        forall|k: int| 0 <= k < schema(Table::Tasks).len() ==> plan_gives_column("tasks"@, #[trigger] schema(Table::Tasks)[k].name),
        plan_gives_column("tasks"@, "sort_idx"@),
{
    reveal_strlit("CREATE TABLE IF NOT EXISTS ");
    reveal_strlit("tasks");
    reveal_strlit("(");
    reveal_strlit(", ");
    reveal_strlit(" ");
    reveal_strlit("CREATE TABLE IF NOT EXISTS tasks(id TEXT PRIMARY KEY, project_id TEXT, client_id TEXT, title TEXT, priority TEXT, due TEXT, note TEXT, done INTEGER, done_at INTEGER, status TEXT, created_at INTEGER, repeat TEXT, waiting INTEGER, waiting_for TEXT, waiting_since INTEGER, planned INTEGER, sort_idx INTEGER, tags TEXT, important INTEGER, note_id TEXT)");
    assert(schema_plan()[14] == SchemaStepV::Create("CREATE TABLE IF NOT EXISTS tasks(id TEXT PRIMARY KEY, project_id TEXT, client_id TEXT, title TEXT, priority TEXT, due TEXT, note TEXT, done INTEGER, done_at INTEGER, status TEXT, created_at INTEGER, repeat TEXT, waiting INTEGER, waiting_for TEXT, waiting_since INTEGER, planned INTEGER, sort_idx INTEGER, tags TEXT, important INTEGER, note_id TEXT)"@));
    assert("CREATE TABLE IF NOT EXISTS tasks(id TEXT PRIMARY KEY, project_id TEXT, client_id TEXT, title TEXT, priority TEXT, due TEXT, note TEXT, done INTEGER, done_at INTEGER, status TEXT, created_at INTEGER, repeat TEXT, waiting INTEGER, waiting_for TEXT, waiting_since INTEGER, planned INTEGER, sort_idx INTEGER, tags TEXT, important INTEGER, note_id TEXT)"@.take(33) =~= "CREATE TABLE IF NOT EXISTS "@ + "tasks"@ + "("@);
    reveal_strlit("id");
    assert("CREATE TABLE IF NOT EXISTS tasks(id TEXT PRIMARY KEY, project_id TEXT, client_id TEXT, title TEXT, priority TEXT, due TEXT, note TEXT, done INTEGER, done_at INTEGER, status TEXT, created_at INTEGER, repeat TEXT, waiting INTEGER, waiting_for TEXT, waiting_since INTEGER, planned INTEGER, sort_idx INTEGER, tags TEXT, important INTEGER, note_id TEXT)"@.subrange(32, 32 + ("("@ + "id"@ + " "@).len() as int) =~= "("@ + "id"@ + " "@);
    assert(contains_text("CREATE TABLE IF NOT EXISTS tasks(id TEXT PRIMARY KEY, project_id TEXT, client_id TEXT, title TEXT, priority TEXT, due TEXT, note TEXT, done INTEGER, done_at INTEGER, status TEXT, created_at INTEGER, repeat TEXT, waiting INTEGER, waiting_for TEXT, waiting_since INTEGER, planned INTEGER, sort_idx INTEGER, tags TEXT, important INTEGER, note_id TEXT)"@, "("@ + "id"@ + " "@));
    assert(step_gives_column(schema_plan()[14], "tasks"@, "id"@));
    reveal_strlit("project_id");
    assert("CREATE TABLE IF NOT EXISTS tasks(id TEXT PRIMARY KEY, project_id TEXT, client_id TEXT, title TEXT, priority TEXT, due TEXT, note TEXT, done INTEGER, done_at INTEGER, status TEXT, created_at INTEGER, repeat TEXT, waiting INTEGER, waiting_for TEXT, waiting_since INTEGER, planned INTEGER, sort_idx INTEGER, tags TEXT, important INTEGER, note_id TEXT)"@.subrange(52, 52 + (", "@ + "project_id"@ + " "@).len() as int) =~= ", "@ + "project_id"@ + " "@);
    assert(contains_text("CREATE TABLE IF NOT EXISTS tasks(id TEXT PRIMARY KEY, project_id TEXT, client_id TEXT, title TEXT, priority TEXT, due TEXT, note TEXT, done INTEGER, done_at INTEGER, status TEXT, created_at INTEGER, repeat TEXT, waiting INTEGER, waiting_for TEXT, waiting_since INTEGER, planned INTEGER, sort_idx INTEGER, tags TEXT, important INTEGER, note_id TEXT)"@, ", "@ + "project_id"@ + " "@));
    assert(step_gives_column(schema_plan()[14], "tasks"@, "project_id"@));
    reveal_strlit("client_id");
    assert("CREATE TABLE IF NOT EXISTS tasks(id TEXT PRIMARY KEY, project_id TEXT, client_id TEXT, title TEXT, priority TEXT, due TEXT, note TEXT, done INTEGER, done_at INTEGER, status TEXT, created_at INTEGER, repeat TEXT, waiting INTEGER, waiting_for TEXT, waiting_since INTEGER, planned INTEGER, sort_idx INTEGER, tags TEXT, important INTEGER, note_id TEXT)"@.subrange(69, 69 + (", "@ + "client_id"@ + " "@).len() as int) =~= ", "@ + "client_id"@ + " "@);
    assert(contains_text("CREATE TABLE IF NOT EXISTS tasks(id TEXT PRIMARY KEY, project_id TEXT, client_id TEXT, title TEXT, priority TEXT, due TEXT, note TEXT, done INTEGER, done_at INTEGER, status TEXT, created_at INTEGER, repeat TEXT, waiting INTEGER, waiting_for TEXT, waiting_since INTEGER, planned INTEGER, sort_idx INTEGER, tags TEXT, important INTEGER, note_id TEXT)"@, ", "@ + "client_id"@ + " "@));
    assert(step_gives_column(schema_plan()[14], "tasks"@, "client_id"@));
    reveal_strlit("title");
    assert("CREATE TABLE IF NOT EXISTS tasks(id TEXT PRIMARY KEY, project_id TEXT, client_id TEXT, title TEXT, priority TEXT, due TEXT, note TEXT, done INTEGER, done_at INTEGER, status TEXT, created_at INTEGER, repeat TEXT, waiting INTEGER, waiting_for TEXT, waiting_since INTEGER, planned INTEGER, sort_idx INTEGER, tags TEXT, important INTEGER, note_id TEXT)"@.subrange(85, 85 + (", "@ + "title"@ + " "@).len() as int) =~= ", "@ + "title"@ + " "@);
    assert(contains_text("CREATE TABLE IF NOT EXISTS tasks(id TEXT PRIMARY KEY, project_id TEXT, client_id TEXT, title TEXT, priority TEXT, due TEXT, note TEXT, done INTEGER, done_at INTEGER, status TEXT, created_at INTEGER, repeat TEXT, waiting INTEGER, waiting_for TEXT, waiting_since INTEGER, planned INTEGER, sort_idx INTEGER, tags TEXT, important INTEGER, note_id TEXT)"@, ", "@ + "title"@ + " "@));
    assert(step_gives_column(schema_plan()[14], "tasks"@, "title"@));
    reveal_strlit("priority");
    assert("CREATE TABLE IF NOT EXISTS tasks(id TEXT PRIMARY KEY, project_id TEXT, client_id TEXT, title TEXT, priority TEXT, due TEXT, note TEXT, done INTEGER, done_at INTEGER, status TEXT, created_at INTEGER, repeat TEXT, waiting INTEGER, waiting_for TEXT, waiting_since INTEGER, planned INTEGER, sort_idx INTEGER, tags TEXT, important INTEGER, note_id TEXT)"@.subrange(97, 97 + (", "@ + "priority"@ + " "@).len() as int) =~= ", "@ + "priority"@ + " "@);
    assert(contains_text("CREATE TABLE IF NOT EXISTS tasks(id TEXT PRIMARY KEY, project_id TEXT, client_id TEXT, title TEXT, priority TEXT, due TEXT, note TEXT, done INTEGER, done_at INTEGER, status TEXT, created_at INTEGER, repeat TEXT, waiting INTEGER, waiting_for TEXT, waiting_since INTEGER, planned INTEGER, sort_idx INTEGER, tags TEXT, important INTEGER, note_id TEXT)"@, ", "@ + "priority"@ + " "@));
    assert(step_gives_column(schema_plan()[14], "tasks"@, "priority"@));
    reveal_strlit("due");
    assert("CREATE TABLE IF NOT EXISTS tasks(id TEXT PRIMARY KEY, project_id TEXT, client_id TEXT, title TEXT, priority TEXT, due TEXT, note TEXT, done INTEGER, done_at INTEGER, status TEXT, created_at INTEGER, repeat TEXT, waiting INTEGER, waiting_for TEXT, waiting_since INTEGER, planned INTEGER, sort_idx INTEGER, tags TEXT, important INTEGER, note_id TEXT)"@.subrange(112, 112 + (", "@ + "due"@ + " "@).len() as int) =~= ", "@ + "due"@ + " "@);
    assert(contains_text("CREATE TABLE IF NOT EXISTS tasks(id TEXT PRIMARY KEY, project_id TEXT, client_id TEXT, title TEXT, priority TEXT, due TEXT, note TEXT, done INTEGER, done_at INTEGER, status TEXT, created_at INTEGER, repeat TEXT, waiting INTEGER, waiting_for TEXT, waiting_since INTEGER, planned INTEGER, sort_idx INTEGER, tags TEXT, important INTEGER, note_id TEXT)"@, ", "@ + "due"@ + " "@));
    assert(step_gives_column(schema_plan()[14], "tasks"@, "due"@));
    reveal_strlit("note");
    assert("CREATE TABLE IF NOT EXISTS tasks(id TEXT PRIMARY KEY, project_id TEXT, client_id TEXT, title TEXT, priority TEXT, due TEXT, note TEXT, done INTEGER, done_at INTEGER, status TEXT, created_at INTEGER, repeat TEXT, waiting INTEGER, waiting_for TEXT, waiting_since INTEGER, planned INTEGER, sort_idx INTEGER, tags TEXT, important INTEGER, note_id TEXT)"@.subrange(122, 122 + (", "@ + "note"@ + " "@).len() as int) =~= ", "@ + "note"@ + " "@);
    assert(contains_text("CREATE TABLE IF NOT EXISTS tasks(id TEXT PRIMARY KEY, project_id TEXT, client_id TEXT, title TEXT, priority TEXT, due TEXT, note TEXT, done INTEGER, done_at INTEGER, status TEXT, created_at INTEGER, repeat TEXT, waiting INTEGER, waiting_for TEXT, waiting_since INTEGER, planned INTEGER, sort_idx INTEGER, tags TEXT, important INTEGER, note_id TEXT)"@, ", "@ + "note"@ + " "@));
    assert(step_gives_column(schema_plan()[14], "tasks"@, "note"@));
    reveal_strlit("done");
    assert("CREATE TABLE IF NOT EXISTS tasks(id TEXT PRIMARY KEY, project_id TEXT, client_id TEXT, title TEXT, priority TEXT, due TEXT, note TEXT, done INTEGER, done_at INTEGER, status TEXT, created_at INTEGER, repeat TEXT, waiting INTEGER, waiting_for TEXT, waiting_since INTEGER, planned INTEGER, sort_idx INTEGER, tags TEXT, important INTEGER, note_id TEXT)"@.subrange(133, 133 + (", "@ + "done"@ + " "@).len() as int) =~= ", "@ + "done"@ + " "@);
    assert(contains_text("CREATE TABLE IF NOT EXISTS tasks(id TEXT PRIMARY KEY, project_id TEXT, client_id TEXT, title TEXT, priority TEXT, due TEXT, note TEXT, done INTEGER, done_at INTEGER, status TEXT, created_at INTEGER, repeat TEXT, waiting INTEGER, waiting_for TEXT, waiting_since INTEGER, planned INTEGER, sort_idx INTEGER, tags TEXT, important INTEGER, note_id TEXT)"@, ", "@ + "done"@ + " "@));
    assert(step_gives_column(schema_plan()[14], "tasks"@, "done"@));
    reveal_strlit("done_at");
    assert("CREATE TABLE IF NOT EXISTS tasks(id TEXT PRIMARY KEY, project_id TEXT, client_id TEXT, title TEXT, priority TEXT, due TEXT, note TEXT, done INTEGER, done_at INTEGER, status TEXT, created_at INTEGER, repeat TEXT, waiting INTEGER, waiting_for TEXT, waiting_since INTEGER, planned INTEGER, sort_idx INTEGER, tags TEXT, important INTEGER, note_id TEXT)"@.subrange(147, 147 + (", "@ + "done_at"@ + " "@).len() as int) =~= ", "@ + "done_at"@ + " "@);
    assert(contains_text("CREATE TABLE IF NOT EXISTS tasks(id TEXT PRIMARY KEY, project_id TEXT, client_id TEXT, title TEXT, priority TEXT, due TEXT, note TEXT, done INTEGER, done_at INTEGER, status TEXT, created_at INTEGER, repeat TEXT, waiting INTEGER, waiting_for TEXT, waiting_since INTEGER, planned INTEGER, sort_idx INTEGER, tags TEXT, important INTEGER, note_id TEXT)"@, ", "@ + "done_at"@ + " "@));
    assert(step_gives_column(schema_plan()[14], "tasks"@, "done_at"@));
    reveal_strlit("status");
    assert("CREATE TABLE IF NOT EXISTS tasks(id TEXT PRIMARY KEY, project_id TEXT, client_id TEXT, title TEXT, priority TEXT, due TEXT, note TEXT, done INTEGER, done_at INTEGER, status TEXT, created_at INTEGER, repeat TEXT, waiting INTEGER, waiting_for TEXT, waiting_since INTEGER, planned INTEGER, sort_idx INTEGER, tags TEXT, important INTEGER, note_id TEXT)"@.subrange(164, 164 + (", "@ + "status"@ + " "@).len() as int) =~= ", "@ + "status"@ + " "@);
    assert(contains_text("CREATE TABLE IF NOT EXISTS tasks(id TEXT PRIMARY KEY, project_id TEXT, client_id TEXT, title TEXT, priority TEXT, due TEXT, note TEXT, done INTEGER, done_at INTEGER, status TEXT, created_at INTEGER, repeat TEXT, waiting INTEGER, waiting_for TEXT, waiting_since INTEGER, planned INTEGER, sort_idx INTEGER, tags TEXT, important INTEGER, note_id TEXT)"@, ", "@ + "status"@ + " "@));
    assert(step_gives_column(schema_plan()[14], "tasks"@, "status"@));
    reveal_strlit("created_at");
    assert("CREATE TABLE IF NOT EXISTS tasks(id TEXT PRIMARY KEY, project_id TEXT, client_id TEXT, title TEXT, priority TEXT, due TEXT, note TEXT, done INTEGER, done_at INTEGER, status TEXT, created_at INTEGER, repeat TEXT, waiting INTEGER, waiting_for TEXT, waiting_since INTEGER, planned INTEGER, sort_idx INTEGER, tags TEXT, important INTEGER, note_id TEXT)"@.subrange(177, 177 + (", "@ + "created_at"@ + " "@).len() as int) =~= ", "@ + "created_at"@ + " "@);
    assert(contains_text("CREATE TABLE IF NOT EXISTS tasks(id TEXT PRIMARY KEY, project_id TEXT, client_id TEXT, title TEXT, priority TEXT, due TEXT, note TEXT, done INTEGER, done_at INTEGER, status TEXT, created_at INTEGER, repeat TEXT, waiting INTEGER, waiting_for TEXT, waiting_since INTEGER, planned INTEGER, sort_idx INTEGER, tags TEXT, important INTEGER, note_id TEXT)"@, ", "@ + "created_at"@ + " "@));
    assert(step_gives_column(schema_plan()[14], "tasks"@, "created_at"@));
    reveal_strlit("repeat");
    assert("CREATE TABLE IF NOT EXISTS tasks(id TEXT PRIMARY KEY, project_id TEXT, client_id TEXT, title TEXT, priority TEXT, due TEXT, note TEXT, done INTEGER, done_at INTEGER, status TEXT, created_at INTEGER, repeat TEXT, waiting INTEGER, waiting_for TEXT, waiting_since INTEGER, planned INTEGER, sort_idx INTEGER, tags TEXT, important INTEGER, note_id TEXT)"@.subrange(197, 197 + (", "@ + "repeat"@ + " "@).len() as int) =~= ", "@ + "repeat"@ + " "@);
    assert(contains_text("CREATE TABLE IF NOT EXISTS tasks(id TEXT PRIMARY KEY, project_id TEXT, client_id TEXT, title TEXT, priority TEXT, due TEXT, note TEXT, done INTEGER, done_at INTEGER, status TEXT, created_at INTEGER, repeat TEXT, waiting INTEGER, waiting_for TEXT, waiting_since INTEGER, planned INTEGER, sort_idx INTEGER, tags TEXT, important INTEGER, note_id TEXT)"@, ", "@ + "repeat"@ + " "@));
    assert(step_gives_column(schema_plan()[14], "tasks"@, "repeat"@));
    reveal_strlit("waiting");
    assert("CREATE TABLE IF NOT EXISTS tasks(id TEXT PRIMARY KEY, project_id TEXT, client_id TEXT, title TEXT, priority TEXT, due TEXT, note TEXT, done INTEGER, done_at INTEGER, status TEXT, created_at INTEGER, repeat TEXT, waiting INTEGER, waiting_for TEXT, waiting_since INTEGER, planned INTEGER, sort_idx INTEGER, tags TEXT, important INTEGER, note_id TEXT)"@.subrange(210, 210 + (", "@ + "waiting"@ + " "@).len() as int) =~= ", "@ + "waiting"@ + " "@);
    assert(contains_text("CREATE TABLE IF NOT EXISTS tasks(id TEXT PRIMARY KEY, project_id TEXT, client_id TEXT, title TEXT, priority TEXT, due TEXT, note TEXT, done INTEGER, done_at INTEGER, status TEXT, created_at INTEGER, repeat TEXT, waiting INTEGER, waiting_for TEXT, waiting_since INTEGER, planned INTEGER, sort_idx INTEGER, tags TEXT, important INTEGER, note_id TEXT)"@, ", "@ + "waiting"@ + " "@));
    assert(step_gives_column(schema_plan()[14], "tasks"@, "waiting"@));
    reveal_strlit("waiting_for");
    assert("CREATE TABLE IF NOT EXISTS tasks(id TEXT PRIMARY KEY, project_id TEXT, client_id TEXT, title TEXT, priority TEXT, due TEXT, note TEXT, done INTEGER, done_at INTEGER, status TEXT, created_at INTEGER, repeat TEXT, waiting INTEGER, waiting_for TEXT, waiting_since INTEGER, planned INTEGER, sort_idx INTEGER, tags TEXT, important INTEGER, note_id TEXT)"@.subrange(227, 227 + (", "@ + "waiting_for"@ + " "@).len() as int) =~= ", "@ + "waiting_for"@ + " "@);
    assert(contains_text("CREATE TABLE IF NOT EXISTS tasks(id TEXT PRIMARY KEY, project_id TEXT, client_id TEXT, title TEXT, priority TEXT, due TEXT, note TEXT, done INTEGER, done_at INTEGER, status TEXT, created_at INTEGER, repeat TEXT, waiting INTEGER, waiting_for TEXT, waiting_since INTEGER, planned INTEGER, sort_idx INTEGER, tags TEXT, important INTEGER, note_id TEXT)"@, ", "@ + "waiting_for"@ + " "@));
    assert(step_gives_column(schema_plan()[14], "tasks"@, "waiting_for"@));
    reveal_strlit("waiting_since");
    assert("CREATE TABLE IF NOT EXISTS tasks(id TEXT PRIMARY KEY, project_id TEXT, client_id TEXT, title TEXT, priority TEXT, due TEXT, note TEXT, done INTEGER, done_at INTEGER, status TEXT, created_at INTEGER, repeat TEXT, waiting INTEGER, waiting_for TEXT, waiting_since INTEGER, planned INTEGER, sort_idx INTEGER, tags TEXT, important INTEGER, note_id TEXT)"@.subrange(245, 245 + (", "@ + "waiting_since"@ + " "@).len() as int) =~= ", "@ + "waiting_since"@ + " "@);
    assert(contains_text("CREATE TABLE IF NOT EXISTS tasks(id TEXT PRIMARY KEY, project_id TEXT, client_id TEXT, title TEXT, priority TEXT, due TEXT, note TEXT, done INTEGER, done_at INTEGER, status TEXT, created_at INTEGER, repeat TEXT, waiting INTEGER, waiting_for TEXT, waiting_since INTEGER, planned INTEGER, sort_idx INTEGER, tags TEXT, important INTEGER, note_id TEXT)"@, ", "@ + "waiting_since"@ + " "@));
    assert(step_gives_column(schema_plan()[14], "tasks"@, "waiting_since"@));
    reveal_strlit("planned");
    assert("CREATE TABLE IF NOT EXISTS tasks(id TEXT PRIMARY KEY, project_id TEXT, client_id TEXT, title TEXT, priority TEXT, due TEXT, note TEXT, done INTEGER, done_at INTEGER, status TEXT, created_at INTEGER, repeat TEXT, waiting INTEGER, waiting_for TEXT, waiting_since INTEGER, planned INTEGER, sort_idx INTEGER, tags TEXT, important INTEGER, note_id TEXT)"@.subrange(268, 268 + (", "@ + "planned"@ + " "@).len() as int) =~= ", "@ + "planned"@ + " "@);
    assert(contains_text("CREATE TABLE IF NOT EXISTS tasks(id TEXT PRIMARY KEY, project_id TEXT, client_id TEXT, title TEXT, priority TEXT, due TEXT, note TEXT, done INTEGER, done_at INTEGER, status TEXT, created_at INTEGER, repeat TEXT, waiting INTEGER, waiting_for TEXT, waiting_since INTEGER, planned INTEGER, sort_idx INTEGER, tags TEXT, important INTEGER, note_id TEXT)"@, ", "@ + "planned"@ + " "@));
    assert(step_gives_column(schema_plan()[14], "tasks"@, "planned"@));
    reveal_strlit("tags");
    assert("CREATE TABLE IF NOT EXISTS tasks(id TEXT PRIMARY KEY, project_id TEXT, client_id TEXT, title TEXT, priority TEXT, due TEXT, note TEXT, done INTEGER, done_at INTEGER, status TEXT, created_at INTEGER, repeat TEXT, waiting INTEGER, waiting_for TEXT, waiting_since INTEGER, planned INTEGER, sort_idx INTEGER, tags TEXT, important INTEGER, note_id TEXT)"@.subrange(303, 303 + (", "@ + "tags"@ + " "@).len() as int) =~= ", "@ + "tags"@ + " "@);
    assert(contains_text("CREATE TABLE IF NOT EXISTS tasks(id TEXT PRIMARY KEY, project_id TEXT, client_id TEXT, title TEXT, priority TEXT, due TEXT, note TEXT, done INTEGER, done_at INTEGER, status TEXT, created_at INTEGER, repeat TEXT, waiting INTEGER, waiting_for TEXT, waiting_since INTEGER, planned INTEGER, sort_idx INTEGER, tags TEXT, important INTEGER, note_id TEXT)"@, ", "@ + "tags"@ + " "@));
    assert(step_gives_column(schema_plan()[14], "tasks"@, "tags"@));
    reveal_strlit("important");
    assert("CREATE TABLE IF NOT EXISTS tasks(id TEXT PRIMARY KEY, project_id TEXT, client_id TEXT, title TEXT, priority TEXT, due TEXT, note TEXT, done INTEGER, done_at INTEGER, status TEXT, created_at INTEGER, repeat TEXT, waiting INTEGER, waiting_for TEXT, waiting_since INTEGER, planned INTEGER, sort_idx INTEGER, tags TEXT, important INTEGER, note_id TEXT)"@.subrange(314, 314 + (", "@ + "important"@ + " "@).len() as int) =~= ", "@ + "important"@ + " "@);
    assert(contains_text("CREATE TABLE IF NOT EXISTS tasks(id TEXT PRIMARY KEY, project_id TEXT, client_id TEXT, title TEXT, priority TEXT, due TEXT, note TEXT, done INTEGER, done_at INTEGER, status TEXT, created_at INTEGER, repeat TEXT, waiting INTEGER, waiting_for TEXT, waiting_since INTEGER, planned INTEGER, sort_idx INTEGER, tags TEXT, important INTEGER, note_id TEXT)"@, ", "@ + "important"@ + " "@));
    assert(step_gives_column(schema_plan()[14], "tasks"@, "important"@));
    reveal_strlit("note_id");
    assert("CREATE TABLE IF NOT EXISTS tasks(id TEXT PRIMARY KEY, project_id TEXT, client_id TEXT, title TEXT, priority TEXT, due TEXT, note TEXT, done INTEGER, done_at INTEGER, status TEXT, created_at INTEGER, repeat TEXT, waiting INTEGER, waiting_for TEXT, waiting_since INTEGER, planned INTEGER, sort_idx INTEGER, tags TEXT, important INTEGER, note_id TEXT)"@.subrange(333, 333 + (", "@ + "note_id"@ + " "@).len() as int) =~= ", "@ + "note_id"@ + " "@);
    assert(contains_text("CREATE TABLE IF NOT EXISTS tasks(id TEXT PRIMARY KEY, project_id TEXT, client_id TEXT, title TEXT, priority TEXT, due TEXT, note TEXT, done INTEGER, done_at INTEGER, status TEXT, created_at INTEGER, repeat TEXT, waiting INTEGER, waiting_for TEXT, waiting_since INTEGER, planned INTEGER, sort_idx INTEGER, tags TEXT, important INTEGER, note_id TEXT)"@, ", "@ + "note_id"@ + " "@));
    assert(step_gives_column(schema_plan()[14], "tasks"@, "note_id"@));
    reveal_strlit("sort_idx");
    assert("CREATE TABLE IF NOT EXISTS tasks(id TEXT PRIMARY KEY, project_id TEXT, client_id TEXT, title TEXT, priority TEXT, due TEXT, note TEXT, done INTEGER, done_at INTEGER, status TEXT, created_at INTEGER, repeat TEXT, waiting INTEGER, waiting_for TEXT, waiting_since INTEGER, planned INTEGER, sort_idx INTEGER, tags TEXT, important INTEGER, note_id TEXT)"@.subrange(285, 285 + (", "@ + "sort_idx"@ + " "@).len() as int) =~= ", "@ + "sort_idx"@ + " "@);
    assert(contains_text("CREATE TABLE IF NOT EXISTS tasks(id TEXT PRIMARY KEY, project_id TEXT, client_id TEXT, title TEXT, priority TEXT, due TEXT, note TEXT, done INTEGER, done_at INTEGER, status TEXT, created_at INTEGER, repeat TEXT, waiting INTEGER, waiting_for TEXT, waiting_since INTEGER, planned INTEGER, sort_idx INTEGER, tags TEXT, important INTEGER, note_id TEXT)"@, ", "@ + "sort_idx"@ + " "@));
    assert(step_gives_column(schema_plan()[14], "tasks"@, "sort_idx"@));
    assert forall|k: int| 0 <= k < schema(Table::Tasks).len() implies plan_gives_column("tasks"@, #[trigger] schema(Table::Tasks)[k].name) by {
        if k == 0 {
            assert(schema(Table::Tasks)[0].name == "id"@);
        } else if k == 1 {
            assert(schema(Table::Tasks)[1].name == "project_id"@);
        } else if k == 2 {
            assert(schema(Table::Tasks)[2].name == "client_id"@);
        } else if k == 3 {
            assert(schema(Table::Tasks)[3].name == "title"@);
        } else if k == 4 {
            assert(schema(Table::Tasks)[4].name == "priority"@);
        } else if k == 5 {
            assert(schema(Table::Tasks)[5].name == "due"@);
        } else if k == 6 {
            assert(schema(Table::Tasks)[6].name == "note"@);
        } else if k == 7 {
            assert(schema(Table::Tasks)[7].name == "done"@);
        } else if k == 8 {
            assert(schema(Table::Tasks)[8].name == "done_at"@);
        } else if k == 9 {
            assert(schema(Table::Tasks)[9].name == "status"@);
        } else if k == 10 {
            assert(schema(Table::Tasks)[10].name == "created_at"@);
        } else if k == 11 {
            assert(schema(Table::Tasks)[11].name == "repeat"@);
        } else if k == 12 {
            assert(schema(Table::Tasks)[12].name == "waiting"@);
        } else if k == 13 {
            assert(schema(Table::Tasks)[13].name == "waiting_for"@);
        } else if k == 14 {
            assert(schema(Table::Tasks)[14].name == "waiting_since"@);
        } else if k == 15 {
            assert(schema(Table::Tasks)[15].name == "planned"@);
        } else if k == 16 {
            assert(schema(Table::Tasks)[16].name == "tags"@);
        } else if k == 17 {
            assert(schema(Table::Tasks)[17].name == "important"@);
        } else if k == 18 {
            assert(schema(Table::Tasks)[18].name == "note_id"@);
        }
    }
}
proof fn lemma_subtasks_columns_created()
    ensures
        forall|k: int| 0 <= k < schema(Table::Subtasks).len() ==> plan_gives_column("subtasks"@, #[trigger] schema(Table::Subtasks)[k].name),
        plan_gives_column("subtasks"@, "sort_idx"@),
        plan_gives_column("subtasks"@, "task_id"@),
{
    reveal_strlit("CREATE TABLE IF NOT EXISTS ");
    reveal_strlit("subtasks");
    reveal_strlit("(");
    reveal_strlit(", ");
    reveal_strlit(" ");
    reveal_strlit("CREATE TABLE IF NOT EXISTS subtasks(id TEXT PRIMARY KEY, task_id TEXT, title TEXT, done INTEGER, done_at INTEGER, sort_idx INTEGER, due TEXT, priority TEXT, note_id TEXT, status TEXT)");
    assert(schema_plan()[15] == SchemaStepV::Create("CREATE TABLE IF NOT EXISTS subtasks(id TEXT PRIMARY KEY, task_id TEXT, title TEXT, done INTEGER, done_at INTEGER, sort_idx INTEGER, due TEXT, priority TEXT, note_id TEXT, status TEXT)"@));
    assert("CREATE TABLE IF NOT EXISTS subtasks(id TEXT PRIMARY KEY, task_id TEXT, title TEXT, done INTEGER, done_at INTEGER, sort_idx INTEGER, due TEXT, priority TEXT, note_id TEXT, status TEXT)"@.take(36) =~= "CREATE TABLE IF NOT EXISTS "@ + "subtasks"@ + "("@);
    reveal_strlit("id");
    assert("CREATE TABLE IF NOT EXISTS subtasks(id TEXT PRIMARY KEY, task_id TEXT, title TEXT, done INTEGER, done_at INTEGER, sort_idx INTEGER, due TEXT, priority TEXT, note_id TEXT, status TEXT)"@.subrange(35, 35 + ("("@ + "id"@ + " "@).len() as int) =~= "("@ + "id"@ + " "@);
    assert(contains_text("CREATE TABLE IF NOT EXISTS subtasks(id TEXT PRIMARY KEY, task_id TEXT, title TEXT, done INTEGER, done_at INTEGER, sort_idx INTEGER, due TEXT, priority TEXT, note_id TEXT, status TEXT)"@, "("@ + "id"@ + " "@));
    assert(step_gives_column(schema_plan()[15], "subtasks"@, "id"@));
    reveal_strlit("title");
    assert("CREATE TABLE IF NOT EXISTS subtasks(id TEXT PRIMARY KEY, task_id TEXT, title TEXT, done INTEGER, done_at INTEGER, sort_idx INTEGER, due TEXT, priority TEXT, note_id TEXT, status TEXT)"@.subrange(69, 69 + (", "@ + "title"@ + " "@).len() as int) =~= ", "@ + "title"@ + " "@);
    assert(contains_text("CREATE TABLE IF NOT EXISTS subtasks(id TEXT PRIMARY KEY, task_id TEXT, title TEXT, done INTEGER, done_at INTEGER, sort_idx INTEGER, due TEXT, priority TEXT, note_id TEXT, status TEXT)"@, ", "@ + "title"@ + " "@));
    assert(step_gives_column(schema_plan()[15], "subtasks"@, "title"@));
    reveal_strlit("done");
    assert("CREATE TABLE IF NOT EXISTS subtasks(id TEXT PRIMARY KEY, task_id TEXT, title TEXT, done INTEGER, done_at INTEGER, sort_idx INTEGER, due TEXT, priority TEXT, note_id TEXT, status TEXT)"@.subrange(81, 81 + (", "@ + "done"@ + " "@).len() as int) =~= ", "@ + "done"@ + " "@);
    assert(contains_text("CREATE TABLE IF NOT EXISTS subtasks(id TEXT PRIMARY KEY, task_id TEXT, title TEXT, done INTEGER, done_at INTEGER, sort_idx INTEGER, due TEXT, priority TEXT, note_id TEXT, status TEXT)"@, ", "@ + "done"@ + " "@));
    assert(step_gives_column(schema_plan()[15], "subtasks"@, "done"@));
    reveal_strlit("done_at");
    assert("CREATE TABLE IF NOT EXISTS subtasks(id TEXT PRIMARY KEY, task_id TEXT, title TEXT, done INTEGER, done_at INTEGER, sort_idx INTEGER, due TEXT, priority TEXT, note_id TEXT, status TEXT)"@.subrange(95, 95 + (", "@ + "done_at"@ + " "@).len() as int) =~= ", "@ + "done_at"@ + " "@);
    assert(contains_text("CREATE TABLE IF NOT EXISTS subtasks(id TEXT PRIMARY KEY, task_id TEXT, title TEXT, done INTEGER, done_at INTEGER, sort_idx INTEGER, due TEXT, priority TEXT, note_id TEXT, status TEXT)"@, ", "@ + "done_at"@ + " "@));
    assert(step_gives_column(schema_plan()[15], "subtasks"@, "done_at"@));
    reveal_strlit("due");
    assert("CREATE TABLE IF NOT EXISTS subtasks(id TEXT PRIMARY KEY, task_id TEXT, title TEXT, done INTEGER, done_at INTEGER, sort_idx INTEGER, due TEXT, priority TEXT, note_id TEXT, status TEXT)"@.subrange(130, 130 + (", "@ + "due"@ + " "@).len() as int) =~= ", "@ + "due"@ + " "@);
    assert(contains_text("CREATE TABLE IF NOT EXISTS subtasks(id TEXT PRIMARY KEY, task_id TEXT, title TEXT, done INTEGER, done_at INTEGER, sort_idx INTEGER, due TEXT, priority TEXT, note_id TEXT, status TEXT)"@, ", "@ + "due"@ + " "@));
    assert(step_gives_column(schema_plan()[15], "subtasks"@, "due"@));
    reveal_strlit("priority");
    assert("CREATE TABLE IF NOT EXISTS subtasks(id TEXT PRIMARY KEY, task_id TEXT, title TEXT, done INTEGER, done_at INTEGER, sort_idx INTEGER, due TEXT, priority TEXT, note_id TEXT, status TEXT)"@.subrange(140, 140 + (", "@ + "priority"@ + " "@).len() as int) =~= ", "@ + "priority"@ + " "@);
    assert(contains_text("CREATE TABLE IF NOT EXISTS subtasks(id TEXT PRIMARY KEY, task_id TEXT, title TEXT, done INTEGER, done_at INTEGER, sort_idx INTEGER, due TEXT, priority TEXT, note_id TEXT, status TEXT)"@, ", "@ + "priority"@ + " "@));
    assert(step_gives_column(schema_plan()[15], "subtasks"@, "priority"@));
    reveal_strlit("note_id");
    assert("CREATE TABLE IF NOT EXISTS subtasks(id TEXT PRIMARY KEY, task_id TEXT, title TEXT, done INTEGER, done_at INTEGER, sort_idx INTEGER, due TEXT, priority TEXT, note_id TEXT, status TEXT)"@.subrange(155, 155 + (", "@ + "note_id"@ + " "@).len() as int) =~= ", "@ + "note_id"@ + " "@);
    assert(contains_text("CREATE TABLE IF NOT EXISTS subtasks(id TEXT PRIMARY KEY, task_id TEXT, title TEXT, done INTEGER, done_at INTEGER, sort_idx INTEGER, due TEXT, priority TEXT, note_id TEXT, status TEXT)"@, ", "@ + "note_id"@ + " "@));
    assert(step_gives_column(schema_plan()[15], "subtasks"@, "note_id"@));
    reveal_strlit("status");
    assert("CREATE TABLE IF NOT EXISTS subtasks(id TEXT PRIMARY KEY, task_id TEXT, title TEXT, done INTEGER, done_at INTEGER, sort_idx INTEGER, due TEXT, priority TEXT, note_id TEXT, status TEXT)"@.subrange(169, 169 + (", "@ + "status"@ + " "@).len() as int) =~= ", "@ + "status"@ + " "@);
    assert(contains_text("CREATE TABLE IF NOT EXISTS subtasks(id TEXT PRIMARY KEY, task_id TEXT, title TEXT, done INTEGER, done_at INTEGER, sort_idx INTEGER, due TEXT, priority TEXT, note_id TEXT, status TEXT)"@, ", "@ + "status"@ + " "@));
    assert(step_gives_column(schema_plan()[15], "subtasks"@, "status"@));
    reveal_strlit("sort_idx");
    assert("CREATE TABLE IF NOT EXISTS subtasks(id TEXT PRIMARY KEY, task_id TEXT, title TEXT, done INTEGER, done_at INTEGER, sort_idx INTEGER, due TEXT, priority TEXT, note_id TEXT, status TEXT)"@.subrange(112, 112 + (", "@ + "sort_idx"@ + " "@).len() as int) =~= ", "@ + "sort_idx"@ + " "@);
    assert(contains_text("CREATE TABLE IF NOT EXISTS subtasks(id TEXT PRIMARY KEY, task_id TEXT, title TEXT, done INTEGER, done_at INTEGER, sort_idx INTEGER, due TEXT, priority TEXT, note_id TEXT, status TEXT)"@, ", "@ + "sort_idx"@ + " "@));
    assert(step_gives_column(schema_plan()[15], "subtasks"@, "sort_idx"@));
    reveal_strlit("task_id");
    assert("CREATE TABLE IF NOT EXISTS subtasks(id TEXT PRIMARY KEY, task_id TEXT, title TEXT, done INTEGER, done_at INTEGER, sort_idx INTEGER, due TEXT, priority TEXT, note_id TEXT, status TEXT)"@.subrange(55, 55 + (", "@ + "task_id"@ + " "@).len() as int) =~= ", "@ + "task_id"@ + " "@);
    assert(contains_text("CREATE TABLE IF NOT EXISTS subtasks(id TEXT PRIMARY KEY, task_id TEXT, title TEXT, done INTEGER, done_at INTEGER, sort_idx INTEGER, due TEXT, priority TEXT, note_id TEXT, status TEXT)"@, ", "@ + "task_id"@ + " "@));
    assert(step_gives_column(schema_plan()[15], "subtasks"@, "task_id"@));
    assert forall|k: int| 0 <= k < schema(Table::Subtasks).len() implies plan_gives_column("subtasks"@, #[trigger] schema(Table::Subtasks)[k].name) by {
        if k == 0 {
            assert(schema(Table::Subtasks)[0].name == "id"@);
        } else if k == 1 {
            assert(schema(Table::Subtasks)[1].name == "title"@);
        } else if k == 2 {
            assert(schema(Table::Subtasks)[2].name == "done"@);
        } else if k == 3 {
            assert(schema(Table::Subtasks)[3].name == "done_at"@);
        } else if k == 4 {
            assert(schema(Table::Subtasks)[4].name == "due"@);
        } else if k == 5 {
            assert(schema(Table::Subtasks)[5].name == "priority"@);
        } else if k == 6 {
            assert(schema(Table::Subtasks)[6].name == "note_id"@);
        } else if k == 7 {
            assert(schema(Table::Subtasks)[7].name == "status"@);
        }
    }
}
proof fn lemma_logs_columns_created()
    ensures
        forall|k: int| 0 <= k < schema(Table::Logs).len() ==> plan_gives_column("logs"@, #[trigger] schema(Table::Logs)[k].name),
        plan_gives_column("logs"@, "task_id"@),
{
    reveal_strlit("CREATE TABLE IF NOT EXISTS ");
    reveal_strlit("logs");
    reveal_strlit("(");
    reveal_strlit(", ");
    reveal_strlit(" ");
    reveal_strlit("CREATE TABLE IF NOT EXISTS logs(id TEXT PRIMARY KEY, task_id TEXT, at INTEGER, text TEXT)");
    assert(schema_plan()[30] == SchemaStepV::Create("CREATE TABLE IF NOT EXISTS logs(id TEXT PRIMARY KEY, task_id TEXT, at INTEGER, text TEXT)"@));
    assert("CREATE TABLE IF NOT EXISTS logs(id TEXT PRIMARY KEY, task_id TEXT, at INTEGER, text TEXT)"@.take(32) =~= "CREATE TABLE IF NOT EXISTS "@ + "logs"@ + "("@);
    reveal_strlit("id");
    assert("CREATE TABLE IF NOT EXISTS logs(id TEXT PRIMARY KEY, task_id TEXT, at INTEGER, text TEXT)"@.subrange(31, 31 + ("("@ + "id"@ + " "@).len() as int) =~= "("@ + "id"@ + " "@);
    assert(contains_text("CREATE TABLE IF NOT EXISTS logs(id TEXT PRIMARY KEY, task_id TEXT, at INTEGER, text TEXT)"@, "("@ + "id"@ + " "@));
    assert(step_gives_column(schema_plan()[30], "logs"@, "id"@));
    reveal_strlit("at");
    assert("CREATE TABLE IF NOT EXISTS logs(id TEXT PRIMARY KEY, task_id TEXT, at INTEGER, text TEXT)"@.subrange(65, 65 + (", "@ + "at"@ + " "@).len() as int) =~= ", "@ + "at"@ + " "@);
    assert(contains_text("CREATE TABLE IF NOT EXISTS logs(id TEXT PRIMARY KEY, task_id TEXT, at INTEGER, text TEXT)"@, ", "@ + "at"@ + " "@));
    assert(step_gives_column(schema_plan()[30], "logs"@, "at"@));
    reveal_strlit("text");
    assert("CREATE TABLE IF NOT EXISTS logs(id TEXT PRIMARY KEY, task_id TEXT, at INTEGER, text TEXT)"@.subrange(77, 77 + (", "@ + "text"@ + " "@).len() as int) =~= ", "@ + "text"@ + " "@);
    assert(contains_text("CREATE TABLE IF NOT EXISTS logs(id TEXT PRIMARY KEY, task_id TEXT, at INTEGER, text TEXT)"@, ", "@ + "text"@ + " "@));
    assert(step_gives_column(schema_plan()[30], "logs"@, "text"@));
    reveal_strlit("task_id");
    assert("CREATE TABLE IF NOT EXISTS logs(id TEXT PRIMARY KEY, task_id TEXT, at INTEGER, text TEXT)"@.subrange(51, 51 + (", "@ + "task_id"@ + " "@).len() as int) =~= ", "@ + "task_id"@ + " "@);
    assert(contains_text("CREATE TABLE IF NOT EXISTS logs(id TEXT PRIMARY KEY, task_id TEXT, at INTEGER, text TEXT)"@, ", "@ + "task_id"@ + " "@));
    assert(step_gives_column(schema_plan()[30], "logs"@, "task_id"@));
    assert forall|k: int| 0 <= k < schema(Table::Logs).len() implies plan_gives_column("logs"@, #[trigger] schema(Table::Logs)[k].name) by {
        if k == 0 {
            assert(schema(Table::Logs)[0].name == "id"@);
        } else if k == 1 {
            assert(schema(Table::Logs)[1].name == "at"@);
        } else if k == 2 {
            assert(schema(Table::Logs)[2].name == "text"@);
        }
    }
}
proof fn lemma_app_meta_columns_created()
    ensures
        forall|k: int| 0 <= k < schema(Table::AppMeta).len() ==> plan_gives_column("app_meta"@, #[trigger] schema(Table::AppMeta)[k].name),
{
    reveal_strlit("CREATE TABLE IF NOT EXISTS ");
    reveal_strlit("app_meta");
    reveal_strlit("(");
    reveal_strlit(", ");
    reveal_strlit(" ");
    reveal_strlit("CREATE TABLE IF NOT EXISTS app_meta(k TEXT PRIMARY KEY, v TEXT)");
    assert(schema_plan()[31] == SchemaStepV::Create("CREATE TABLE IF NOT EXISTS app_meta(k TEXT PRIMARY KEY, v TEXT)"@));
    assert("CREATE TABLE IF NOT EXISTS app_meta(k TEXT PRIMARY KEY, v TEXT)"@.take(36) =~= "CREATE TABLE IF NOT EXISTS "@ + "app_meta"@ + "("@);
    reveal_strlit("k");
    assert("CREATE TABLE IF NOT EXISTS app_meta(k TEXT PRIMARY KEY, v TEXT)"@.subrange(35, 35 + ("("@ + "k"@ + " "@).len() as int) =~= "("@ + "k"@ + " "@);
    assert(contains_text("CREATE TABLE IF NOT EXISTS app_meta(k TEXT PRIMARY KEY, v TEXT)"@, "("@ + "k"@ + " "@));
    assert(step_gives_column(schema_plan()[31], "app_meta"@, "k"@));
    reveal_strlit("v");
    assert("CREATE TABLE IF NOT EXISTS app_meta(k TEXT PRIMARY KEY, v TEXT)"@.subrange(54, 54 + (", "@ + "v"@ + " "@).len() as int) =~= ", "@ + "v"@ + " "@);
    assert(contains_text("CREATE TABLE IF NOT EXISTS app_meta(k TEXT PRIMARY KEY, v TEXT)"@, ", "@ + "v"@ + " "@));
    assert(step_gives_column(schema_plan()[31], "app_meta"@, "v"@));
    assert forall|k: int| 0 <= k < schema(Table::AppMeta).len() implies plan_gives_column("app_meta"@, #[trigger] schema(Table::AppMeta)[k].name) by {
        if k == 0 {
            assert(schema(Table::AppMeta)[0].name == "k"@);
        } else if k == 1 {
            assert(schema(Table::AppMeta)[1].name == "v"@);
        }
    }
}

/// On any database, new or old, the schema steps give every table every
/// column a save writes or a load reads: each column of the table's
/// description, its `sort_idx` when rows are kept in order, and the
/// `task_id` of subtasks and logs.
pub proof fn law_schema_has_every_column()
    ensures
        forall|t: Table, k: int| 0 <= k < schema(t).len() ==> plan_gives_column(table_name(t), #[trigger] schema(t)[k].name),
        plan_gives_column(table_name(Table::Projects), "sort_idx"@),
        plan_gives_column(table_name(Table::Clients), "sort_idx"@),
        plan_gives_column(table_name(Table::Tags), "sort_idx"@),
        plan_gives_column(table_name(Table::Notes), "sort_idx"@),
        plan_gives_column(table_name(Table::SmartLists), "sort_idx"@),
        plan_gives_column(table_name(Table::NoteCats), "sort_idx"@),
        plan_gives_column(table_name(Table::Tasks), "sort_idx"@),
        plan_gives_column(table_name(Table::Subtasks), "sort_idx"@),
        plan_gives_column(table_name(Table::Subtasks), "task_id"@),
        plan_gives_column(table_name(Table::Logs), "task_id"@),
{
    lemma_projects_columns_created();
    lemma_proj_stages_columns_created();
    lemma_clients_columns_created();
    lemma_tags_columns_created();
    lemma_notes_columns_created();
    lemma_smart_lists_columns_created();
    lemma_note_cats_columns_created();
    lemma_tasks_columns_created();
    lemma_subtasks_columns_created();
    lemma_logs_columns_created();
    lemma_app_meta_columns_created();
    assert forall|t: Table, k: int| 0 <= k < schema(t).len() implies plan_gives_column(table_name(t), #[trigger] schema(t)[k].name) by {
        match t {
            Table::Projects => { assert(table_name(t) == "projects"@); },
            Table::ProjStages => { assert(table_name(t) == "proj_stages"@); },
            Table::Clients => { assert(table_name(t) == "clients"@); },
            Table::Tags => { assert(table_name(t) == "tags"@); },
            Table::Notes => { assert(table_name(t) == "notes"@); },
            Table::SmartLists => { assert(table_name(t) == "smart_lists"@); },
            Table::NoteCats => { assert(table_name(t) == "note_cats"@); },
            Table::Tasks => { assert(table_name(t) == "tasks"@); },
            Table::Subtasks => { assert(table_name(t) == "subtasks"@); },
            Table::Logs => { assert(table_name(t) == "logs"@); },
            Table::AppMeta => { assert(table_name(t) == "app_meta"@); },
        }
    }
}

} // verus!
