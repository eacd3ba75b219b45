//! The normalised tables the document is stored in.
//!
//! Each table is described once, by its columns: the JSON key a column is
//! filled from, the SQL name of the column, and how the value is written,
//! compared and read back. Writing a row, computing what a stored row is
//! compared against when looking for changes, and turning a stored row back
//! into a JSON object all follow this one description.

use vstd::prelude::*;
use crate::json::{
    Json, JsonText, JsonV, at, f64_bits_or_zero, flag_field, int_field, str_field, text_at,
};
use crate::out::{Out, OutField, OutFieldV, OutV, field_views};
use crate::text::owned;

verus! {

/// A stored cell.
pub enum Cell {
    Text(String),
    Int(i64),
    /// A REAL column, by the IEEE-754 bits of its value.
    Real(u64),
}

pub enum CellV {
    Text(Seq<char>),
    Int(i64),
    Real(u64),
}

impl View for Cell {
    type V = CellV;

    open spec fn view(&self) -> CellV {
        match self {
            Cell::Text(s) => CellV::Text(s@),
            Cell::Int(i) => CellV::Int(*i),
            Cell::Real(r) => CellV::Real(*r),
        }
    }
}

/// A row to be written, one cell per column of its table.
pub struct Row {
    pub cells: Vec<Cell>,
}

pub open spec fn cell_views(c: Seq<Cell>) -> Seq<CellV> {
    Seq::new(c.len(), |i: int| c[i]@)
}

impl View for Row {
    type V = Seq<CellV>;

    open spec fn view(&self) -> Seq<CellV> {
        cell_views(self.cells@)
    }
}

/// A stored row as read back: its cells in column order (SQL `NULL` read
/// as `""`, `0` or `0.0`), and, for a table with a JSON-valued column, the
/// parse of that column's text (none when it does not parse).
pub struct Record {
    pub cells: Vec<Cell>,
    pub json: Option<JsonText>,
}

pub struct RecordV {
    pub cells: Seq<CellV>,
    pub json: Option<(JsonV, Seq<char>)>,
}

impl View for Record {
    type V = RecordV;

    open spec fn view(&self) -> RecordV {
        RecordV {
            cells: cell_views(self.cells@),
            json: match self.json {
                Some(p) => Some(p@),
                None => None,
            },
        }
    }
}

pub open spec fn record_views(v: Seq<Record>) -> Seq<RecordV> {
    Seq::new(v.len(), |i: int| v[i]@)
}

pub open spec fn row_views(v: Seq<Row>) -> Seq<Seq<CellV>> {
    Seq::new(v.len(), |i: int| v[i]@)
}

/// How a column is written, compared and read back.
#[derive(Clone, Copy, PartialEq, Eq, Structural)]
pub enum ColKind {
    /// A string field (`""` when absent).
    Text,
    /// An integer field (`0` when absent).
    Int,
    /// A boolean field stored as `1`/`0` and read back as a boolean.
    Flag,
    /// A boolean field stored as `1`/`0` and read back as the number.
    FlagNumber,
    /// A floating-point field (`0.0` when absent).
    Real,
    /// A JSON value stored as its text; read back as `[]` when the text does
    /// not parse.
    JsonList,
    /// A JSON value stored as its text; read back as `null` when the text
    /// does not parse.
    JsonValue,
    /// The position of the item in its array.
    Position,
}

/// A column: the JSON key it holds, its SQL name, and its kind.
pub struct Column {
    pub key: &'static str,
    pub name: &'static str,
    pub kind: ColKind,
}

pub struct ColumnV {
    pub key: Seq<char>,
    pub name: Seq<char>,
    pub kind: ColKind,
}

impl View for Column {
    type V = ColumnV;

    open spec fn view(&self) -> ColumnV {
        ColumnV { key: self.key@, name: self.name@, kind: self.kind }
    }
}

pub open spec fn column_views(v: Seq<Column>) -> Seq<ColumnV> {
    Seq::new(v.len(), |i: int| v[i]@)
}

/// The stored tables.
#[derive(Clone, Copy, PartialEq, Eq, Structural)]
pub enum Table {
    Projects,
    ProjStages,
    Clients,
    Tags,
    Notes,
    SmartLists,
    NoteCats,
    Tasks,
    Subtasks,
    Logs,
    AppMeta,
}

pub open spec fn cv(key: &'static str, name: &'static str, kind: ColKind) -> ColumnV {
    ColumnV { key: key@, name: name@, kind }
}

/// The columns of each table, in the order rows are written and read.
/// Subtasks and logs also carry the id of their task, and most tables a
/// sort index; those are not part of a row's cells.
pub open spec fn schema(t: Table) -> Seq<ColumnV> {
    match t {
        Table::Projects => seq![
            cv("id", "id", ColKind::Text),
            cv("name", "name", ColKind::Text),
            cv("color", "color", ColKind::Text),
            cv("summary", "summary", ColKind::Text),
            cv("goal", "goal", ColKind::Text),
            cv("status", "status", ColKind::Text),
            cv("landing", "landing", ColKind::Text),
            cv("isContract", "isContract", ColKind::FlagNumber),
            cv("signDate", "signDate", ColKind::Text),
            cv("landYear", "landYear", ColKind::Int),
            cv("budget", "budget", ColKind::Real),
            cv("contract", "contract", ColKind::Real),
            cv("clientId", "client_id", ColKind::Text),
        ],
        Table::ProjStages => seq![
            cv("id", "id", ColKind::Text),
            cv("name", "name", ColKind::Text),
            cv("ord", "ord", ColKind::Position),
            cv("landed", "landed", ColKind::Int),
        ],
        Table::Clients | Table::Tags => seq![
            cv("id", "id", ColKind::Text),
            cv("name", "name", ColKind::Text),
            cv("color", "color", ColKind::Text),
            cv("category", "category", ColKind::Text),
        ],
        Table::Notes => seq![
            cv("id", "id", ColKind::Text),
            cv("title", "title", ColKind::Text),
            cv("cat", "cat", ColKind::Text),
            cv("md", "md", ColKind::Text),
            cv("createdAt", "created_at", ColKind::Int),
            cv("updatedAt", "updated_at", ColKind::Int),
            cv("pinned", "pinned", ColKind::Flag),
            cv("tags", "tags", ColKind::JsonList),
        ],
        Table::SmartLists => seq![
            cv("id", "id", ColKind::Text),
            cv("name", "name", ColKind::Text),
            cv("query", "query", ColKind::JsonValue),
        ],
        Table::NoteCats => seq![cv("name", "name", ColKind::Text)],
        Table::Tasks => seq![
            cv("id", "id", ColKind::Text),
            cv("projectId", "project_id", ColKind::Text),
            cv("clientId", "client_id", ColKind::Text),
            cv("title", "title", ColKind::Text),
            cv("priority", "priority", ColKind::Text),
            cv("due", "due", ColKind::Text),
            cv("note", "note", ColKind::Text),
            cv("done", "done", ColKind::Flag),
            cv("doneAt", "done_at", ColKind::Int),
            cv("status", "status", ColKind::Text),
            cv("createdAt", "created_at", ColKind::Int),
            cv("repeat", "repeat", ColKind::Text),
            cv("waiting", "waiting", ColKind::Flag),
            cv("waitingFor", "waiting_for", ColKind::Text),
            cv("waitingSince", "waiting_since", ColKind::Int),
            cv("planned", "planned", ColKind::Flag),
            cv("tags", "tags", ColKind::JsonList),
            cv("important", "important", ColKind::Flag),
            cv("noteId", "note_id", ColKind::Text),
        ],
        Table::Subtasks => seq![
            cv("id", "id", ColKind::Text),
            cv("title", "title", ColKind::Text),
            cv("done", "done", ColKind::Flag),
            cv("doneAt", "done_at", ColKind::Int),
            cv("due", "due", ColKind::Text),
            cv("priority", "priority", ColKind::Text),
            cv("noteId", "note_id", ColKind::Text),
            cv("status", "status", ColKind::Text),
        ],
        Table::Logs => seq![
            cv("id", "id", ColKind::Text),
            cv("at", "at", ColKind::Int),
            cv("text", "text", ColKind::Text),
        ],
        Table::AppMeta => seq![cv("k", "k", ColKind::Text), cv("v", "v", ColKind::Text)],
    }
}

fn col(key: &'static str, name: &'static str, kind: ColKind) -> (r: Column)
    ensures
        r@ == cv(key, name, kind),
{
    Column { key, name, kind }
}

/// The SQL name of each table.
pub open spec fn table_name(t: Table) -> Seq<char> {
    match t {
        Table::Projects => "projects"@,
        Table::ProjStages => "proj_stages"@,
        Table::Clients => "clients"@,
        Table::Tags => "tags"@,
        Table::Notes => "notes"@,
        Table::SmartLists => "smart_lists"@,
        Table::NoteCats => "note_cats"@,
        Table::Tasks => "tasks"@,
        Table::Subtasks => "subtasks"@,
        Table::Logs => "logs"@,
        Table::AppMeta => "app_meta"@,
    }
}

impl Table {
    /// The SQL name of the table.
    pub fn name(self) -> (r: &'static str)
        ensures
            r@ == table_name(self),
    {
        match self {
            Table::Projects => "projects",
            Table::ProjStages => "proj_stages",
            Table::Clients => "clients",
            Table::Tags => "tags",
            Table::Notes => "notes",
            Table::SmartLists => "smart_lists",
            Table::NoteCats => "note_cats",
            Table::Tasks => "tasks",
            Table::Subtasks => "subtasks",
            Table::Logs => "logs",
            Table::AppMeta => "app_meta",
        }
    }

    /// Whether rows carry a `sort_idx` that orders them when read.
    pub fn sorted(self) -> (r: bool)
        ensures
            r == !(self == Table::ProjStages || self == Table::Logs || self == Table::AppMeta),
    {
        match self {
            Table::ProjStages | Table::Logs | Table::AppMeta => false,
            _ => true,
        }
    }

    /// The columns of the table.
    pub fn columns(self) -> (r: Vec<Column>)
        ensures
            column_views(r@) == schema(self),
    {
        let mut v: Vec<Column> = Vec::new();
        match self {
            Table::Projects => {
                v.push(col("id", "id", ColKind::Text));
                v.push(col("name", "name", ColKind::Text));
                v.push(col("color", "color", ColKind::Text));
                v.push(col("summary", "summary", ColKind::Text));
                v.push(col("goal", "goal", ColKind::Text));
                v.push(col("status", "status", ColKind::Text));
                v.push(col("landing", "landing", ColKind::Text));
                v.push(col("isContract", "isContract", ColKind::FlagNumber));
                v.push(col("signDate", "signDate", ColKind::Text));
                v.push(col("landYear", "landYear", ColKind::Int));
                v.push(col("budget", "budget", ColKind::Real));
                v.push(col("contract", "contract", ColKind::Real));
                v.push(col("clientId", "client_id", ColKind::Text));
            },
            Table::ProjStages => {
                v.push(col("id", "id", ColKind::Text));
                v.push(col("name", "name", ColKind::Text));
                v.push(col("ord", "ord", ColKind::Position));
                v.push(col("landed", "landed", ColKind::Int));
            },
            Table::Clients | Table::Tags => {
                v.push(col("id", "id", ColKind::Text));
                v.push(col("name", "name", ColKind::Text));
                v.push(col("color", "color", ColKind::Text));
                v.push(col("category", "category", ColKind::Text));
            },
            Table::Notes => {
                v.push(col("id", "id", ColKind::Text));
                v.push(col("title", "title", ColKind::Text));
                v.push(col("cat", "cat", ColKind::Text));
                v.push(col("md", "md", ColKind::Text));
                v.push(col("createdAt", "created_at", ColKind::Int));
                v.push(col("updatedAt", "updated_at", ColKind::Int));
                v.push(col("pinned", "pinned", ColKind::Flag));
                v.push(col("tags", "tags", ColKind::JsonList));
            },
            Table::SmartLists => {
                v.push(col("id", "id", ColKind::Text));
                v.push(col("name", "name", ColKind::Text));
                v.push(col("query", "query", ColKind::JsonValue));
            },
            Table::NoteCats => {
                v.push(col("name", "name", ColKind::Text));
            },
            Table::Tasks => {
                v.push(col("id", "id", ColKind::Text));
                v.push(col("projectId", "project_id", ColKind::Text));
                v.push(col("clientId", "client_id", ColKind::Text));
                v.push(col("title", "title", ColKind::Text));
                v.push(col("priority", "priority", ColKind::Text));
                v.push(col("due", "due", ColKind::Text));
                v.push(col("note", "note", ColKind::Text));
                v.push(col("done", "done", ColKind::Flag));
                v.push(col("doneAt", "done_at", ColKind::Int));
                v.push(col("status", "status", ColKind::Text));
                v.push(col("createdAt", "created_at", ColKind::Int));
                v.push(col("repeat", "repeat", ColKind::Text));
                v.push(col("waiting", "waiting", ColKind::Flag));
                v.push(col("waitingFor", "waiting_for", ColKind::Text));
                v.push(col("waitingSince", "waiting_since", ColKind::Int));
                v.push(col("planned", "planned", ColKind::Flag));
                v.push(col("tags", "tags", ColKind::JsonList));
                v.push(col("important", "important", ColKind::Flag));
                v.push(col("noteId", "note_id", ColKind::Text));
            },
            Table::Subtasks => {
                v.push(col("id", "id", ColKind::Text));
                v.push(col("title", "title", ColKind::Text));
                v.push(col("done", "done", ColKind::Flag));
                v.push(col("doneAt", "done_at", ColKind::Int));
                v.push(col("due", "due", ColKind::Text));
                v.push(col("priority", "priority", ColKind::Text));
                v.push(col("noteId", "note_id", ColKind::Text));
                v.push(col("status", "status", ColKind::Text));
            },
            Table::Logs => {
                v.push(col("id", "id", ColKind::Text));
                v.push(col("at", "at", ColKind::Int));
                v.push(col("text", "text", ColKind::Text));
            },
            Table::AppMeta => {
                v.push(col("k", "k", ColKind::Text));
                v.push(col("v", "v", ColKind::Text));
            },
        }
        assert(column_views(v@) =~= schema(self));
        v
    }
}

// ---------------------------------------------------------------------
// Reading cells of a stored row.

/// The text in cell `k`; `""` when the cell is missing or not text.
pub open spec fn text_cell(r: Seq<CellV>, k: int) -> Seq<char> {
    if 0 <= k < r.len() {
        match r[k] {
            CellV::Text(s) => s,
            _ => Seq::empty(),
        }
    } else {
        Seq::empty()
    }
}

/// The integer in cell `k`; `0` when the cell is missing or not an integer.
pub open spec fn int_cell(r: Seq<CellV>, k: int) -> i64 {
    if 0 <= k < r.len() {
        match r[k] {
            CellV::Int(i) => i,
            _ => 0,
        }
    } else {
        0
    }
}

/// The real in cell `k` (its bits); `0` when missing or not a real.
pub open spec fn real_cell(r: Seq<CellV>, k: int) -> u64 {
    if 0 <= k < r.len() {
        match r[k] {
            CellV::Real(b) => b,
            _ => 0,
        }
    } else {
        0
    }
}

pub fn text_in(cells: &Vec<Cell>, k: usize) -> (r: String)
    ensures
        r@ == text_cell(cell_views(cells@), k as int),
{
    if k < cells.len() {
        match &cells[k] {
            Cell::Text(s) => s.clone(),
            _ => String::new(),
        }
    } else {
        String::new()
    }
}

pub fn int_in(cells: &Vec<Cell>, k: usize) -> (r: i64)
    ensures
        r == int_cell(cell_views(cells@), k as int),
{
    if k < cells.len() {
        match &cells[k] {
            Cell::Int(i) => *i,
            _ => 0,
        }
    } else {
        0
    }
}

pub fn real_in(cells: &Vec<Cell>, k: usize) -> (r: u64)
    ensures
        r == real_cell(cell_views(cells@), k as int),
{
    if k < cells.len() {
        match &cells[k] {
            Cell::Real(b) => *b,
            _ => 0,
        }
    } else {
        0
    }
}

// ---------------------------------------------------------------------
// Writing: the cell a column takes from a JSON item.

/// The cell written for column `c` of item `j` at position `pos` of its
/// array.
pub open spec fn write_cell(j: JsonV, c: ColumnV, pos: int) -> CellV {
    match c.kind {
        ColKind::Text => CellV::Text(str_field(j, c.key)),
        ColKind::Int => CellV::Int(int_field(j, c.key)),
        ColKind::Flag | ColKind::FlagNumber => CellV::Int(flag_field(j, c.key)),
        ColKind::Real => CellV::Real(f64_bits_or_zero(at(j, c.key))),
        ColKind::JsonList | ColKind::JsonValue => CellV::Text(text_at(j, c.key)),
        ColKind::Position => CellV::Int(pos as i64),
    }
}

/// The row written for item `j` at position `pos`.
pub open spec fn write_cells(j: JsonV, cols: Seq<ColumnV>, pos: int) -> Seq<CellV> {
    Seq::new(cols.len(), |k: int| write_cell(j, cols[k], pos))
}

/// `b.unwrap_or(false)` as `1`/`0`.
pub open spec fn b2i_spec(b: Option<bool>) -> i64 {
    if b == Some(true) {
        1
    } else {
        0
    }
}

/// A boolean as stored: `1` for `true`, `0` for `false` or absent.
pub fn b2i(b: Option<bool>) -> (r: i64)
    ensures
        r == b2i_spec(b),
{
    if b.unwrap_or(false) {
        1
    } else {
        0
    }
}

fn write_one(j: &Json, c: &Column, pos: usize) -> (r: Cell)
    ensures
        r@ == write_cell(j@, c@, pos as int),
{
    match c.kind {
        ColKind::Text => Cell::Text(j.str_at(c.key)),
        ColKind::Int => Cell::Int(j.int_at(c.key)),
        ColKind::Flag | ColKind::FlagNumber => Cell::Int(b2i(j.bool_at(c.key))),
        ColKind::Real => Cell::Real(j.f64_bits_at(c.key)),
        ColKind::JsonList | ColKind::JsonValue => Cell::Text(j.text_at(c.key)),
        ColKind::Position => Cell::Int(pos as i64),
    }
}

/// The row written for item `j` at position `pos` of its array.
pub fn write_row(j: &Json, cols: &Vec<Column>, pos: usize) -> (r: Row)
    ensures
        r@ == write_cells(j@, column_views(cols@), pos as int),
{
    let mut cells: Vec<Cell> = Vec::new();
    let mut k: usize = 0;
    while k < cols.len()
        invariant
            k <= cols@.len(),
            cells@.len() == k,
            forall|m: int| 0 <= m < k ==> #[trigger] cells@[m]@ == write_cell(j@, cols@[m]@, pos as int),
        decreases cols.len() - k,
    {
        let c = write_one(j, &cols[k], pos);
        cells.push(c);
        k = k + 1;
    }
    let r = Row { cells };
    assert(r@ =~= write_cells(j@, column_views(cols@), pos as int));
    r
}

// ---------------------------------------------------------------------
// Comparing: what a stored row is compared against when a save looks for
// changes. It is the row that would be written for the item as it reads
// back (a stored flag compares as `1` exactly when it holds `1`, whether it
// reads back as a boolean or as the number; a stored JSON text compares as
// the text of its parse).

pub open spec fn json_text_or(p: Option<(JsonV, Seq<char>)>, dflt: Seq<char>) -> Seq<char> {
    match p {
        Some(x) => x.1,
        None => dflt,
    }
}

pub open spec fn json_value_or(p: Option<(JsonV, Seq<char>)>, dflt: JsonV) -> JsonV {
    match p {
        Some(x) => x.0,
        None => dflt,
    }
}

pub open spec fn sig_cell(r: RecordV, k: int, c: ColumnV) -> CellV {
    match c.kind {
        ColKind::Text => CellV::Text(text_cell(r.cells, k)),
        ColKind::Int | ColKind::Position => CellV::Int(int_cell(r.cells, k)),
        ColKind::Flag | ColKind::FlagNumber => CellV::Int(
            if int_cell(r.cells, k) == 1 {
                1
            } else {
                0
            },
        ),
        ColKind::Real => CellV::Real(real_cell(r.cells, k)),
        ColKind::JsonList => CellV::Text(json_text_or(r.json, "[]"@)),
        ColKind::JsonValue => CellV::Text(json_text_or(r.json, "null"@)),
    }
}

pub open spec fn sig_cells(r: RecordV, cols: Seq<ColumnV>) -> Seq<CellV> {
    Seq::new(cols.len(), |k: int| sig_cell(r, k, cols[k]))
}

fn parsed_text(p: &Option<JsonText>, dflt: &str) -> (r: String)
    ensures
        r@ == json_text_or(
            match p {
                Some(x) => Some(x@),
                None => None,
            },
            dflt@,
        ),
{
    match p {
        Some(x) => x.text.clone(),
        None => owned(dflt),
    }
}

fn sig_one(rec: &Record, k: usize, c: &Column) -> (r: Cell)
    ensures
        r@ == sig_cell(rec@, k as int, c@),
{
    match c.kind {
        ColKind::Text => Cell::Text(text_in(&rec.cells, k)),
        ColKind::Int | ColKind::Position => Cell::Int(int_in(&rec.cells, k)),
        ColKind::Flag | ColKind::FlagNumber => Cell::Int(
            if int_in(&rec.cells, k) == 1 {
                1
            } else {
                0
            },
        ),
        ColKind::Real => Cell::Real(real_in(&rec.cells, k)),
        ColKind::JsonList => Cell::Text(parsed_text(&rec.json, "[]")),
        ColKind::JsonValue => Cell::Text(parsed_text(&rec.json, "null")),
    }
}

/// The row a stored record is compared against.
pub fn sig_row(rec: &Record, cols: &Vec<Column>) -> (r: Row)
    ensures
        r@ == sig_cells(rec@, column_views(cols@)),
{
    let mut cells: Vec<Cell> = Vec::new();
    let mut k: usize = 0;
    while k < cols.len()
        invariant
            k <= cols@.len(),
            cells@.len() == k,
            forall|m: int| 0 <= m < k ==> #[trigger] cells@[m]@ == sig_cell(rec@, m, cols@[m]@),
        decreases cols.len() - k,
    {
        let c = sig_one(rec, k, &cols[k]);
        cells.push(c);
        k = k + 1;
    }
    let r = Row { cells };
    assert(r@ =~= sig_cells(rec@, column_views(cols@)));
    r
}

/// Whether two rows hold the same cells.
pub fn same_row(a: &Row, b: &Row) -> (r: bool)
    ensures
        r == (a@ == b@),
{
    if a.cells.len() != b.cells.len() {
        assert(a@.len() != b@.len());
        return false;
    }
    let mut k: usize = 0;
    while k < a.cells.len()
        invariant
            k <= a.cells@.len(),
            a.cells@.len() == b.cells@.len(),
            forall|m: int| 0 <= m < k ==> #[trigger] a@[m] == b@[m],
        decreases a.cells.len() - k,
    {
        assert(a@[k as int] == a.cells@[k as int]@);
        assert(b@[k as int] == b.cells@[k as int]@);
        let same = match &a.cells[k] {
            Cell::Text(x) => match &b.cells[k] {
                Cell::Text(y) => x.eq(y),
                _ => false,
            },
            Cell::Int(x) => match &b.cells[k] {
                Cell::Int(y) => *x == *y,
                _ => false,
            },
            Cell::Real(x) => match &b.cells[k] {
                Cell::Real(y) => *x == *y,
                _ => false,
            },
        };
        if !same {
            assert(a@[k as int] != b@[k as int]);
            return false;
        }
        k = k + 1;
    }
    assert(a@ =~= b@);
    true
}

// ---------------------------------------------------------------------
// Reading back: the JSON object a stored row becomes.

pub open spec fn out_cell(r: RecordV, k: int, c: ColumnV) -> OutV {
    match c.kind {
        ColKind::Text => OutV::Str(text_cell(r.cells, k)),
        ColKind::Int | ColKind::FlagNumber | ColKind::Position => OutV::Int(int_cell(r.cells, k)),
        ColKind::Flag => OutV::Bool(int_cell(r.cells, k) == 1),
        ColKind::Real => OutV::Real(real_cell(r.cells, k)),
        ColKind::JsonList => OutV::Json(json_value_or(r.json, JsonV::Arr(Seq::empty()))),
        ColKind::JsonValue => OutV::Json(json_value_or(r.json, JsonV::Null)),
    }
}

/// The members of the object a stored row becomes.
pub open spec fn out_fields(r: RecordV, cols: Seq<ColumnV>) -> Seq<OutFieldV> {
    Seq::new(cols.len(), |k: int| OutFieldV { key: cols[k].key, value: out_cell(r, k, cols[k]) })
}

fn parsed_value(p: &Option<JsonText>, list: bool) -> (r: Json)
    ensures
        r@ == json_value_or(
            match p {
                Some(x) => Some(x@),
                None => None,
            },
            if list {
                JsonV::Arr(Seq::empty())
            } else {
                JsonV::Null
            },
        ),
{
    match p {
        Some(x) => x.value.deep_clone(),
        None => if list {
            let r = Json::Arr(Vec::new());
            proof {
                if let JsonV::Arr(a) = r@ {
                    assert(a =~= Seq::<JsonV>::empty());
                }
            }
            r
        } else {
            Json::Null
        },
    }
}

fn out_one(rec: &Record, k: usize, c: &Column) -> (r: Out)
    ensures
        r@ == out_cell(rec@, k as int, c@),
{
    match c.kind {
        ColKind::Text => Out::Str(text_in(&rec.cells, k)),
        ColKind::Int | ColKind::FlagNumber | ColKind::Position => Out::Int(int_in(&rec.cells, k)),
        ColKind::Flag => Out::Bool(int_in(&rec.cells, k) == 1),
        ColKind::Real => Out::Real(real_in(&rec.cells, k)),
        ColKind::JsonList => Out::Json(parsed_value(&rec.json, true)),
        ColKind::JsonValue => Out::Json(parsed_value(&rec.json, false)),
    }
}

/// The members of the object a stored row becomes, one per column.
pub fn out_row(rec: &Record, cols: &Vec<Column>) -> (r: Vec<OutField>)
    ensures
        field_views(r@) == out_fields(rec@, column_views(cols@)),
{
    let mut fs: Vec<OutField> = Vec::new();
    let mut k: usize = 0;
    while k < cols.len()
        invariant
            k <= cols@.len(),
            fs@.len() == k,
            forall|m: int|
                0 <= m < k ==> #[trigger] fs@[m]@ == (OutFieldV {
                    key: cols@[m]@.key,
                    value: out_cell(rec@, m, cols@[m]@),
                }),
        decreases cols.len() - k,
    {
        let v = out_one(rec, k, &cols[k]);
        fs.push(OutField { key: owned(cols[k].key), value: v });
        k = k + 1;
    }
    assert(field_views(fs@) =~= out_fields(rec@, column_views(cols@)));
    fs
}

} // verus!
