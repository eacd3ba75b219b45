//! Escaping, scripts, setup decisions and snapshot names.

use taskdeck::platform::{autostart_plist, escape_osascript, escape_xml, notify_script};
use taskdeck::schema::{b2i, Table};
use taskdeck::setup::{
    add_column_sql, custom_data_dir, has_column, init_schema, menu_action, needs_stage_seed,
    registry_has_entry, reveal_target, should_migrate, stage_seeds, store_route, table_info_sql,
    tray_action, MenuAction, RevealTarget, SchemaStep, StoreRoute, TrayAction,
};
use taskdeck::snapshots::{
    lex_le_exec, list_snapshots, snapshot_file_name, snapshot_label, snapshot_name, snapshots_to_prune,
    worth_snapshot, KEEP_SNAPSHOTS,
};
use taskdeck::text::trim;

fn strings(v: &[&str]) -> Vec<String> {
    v.iter().map(|s| s.to_string()).collect()
}

#[test]
fn b2i_maps_flags() {
    assert_eq!(b2i(Some(true)), 1);
    assert_eq!(b2i(Some(false)), 0);
    assert_eq!(b2i(None), 0);
}

#[test]
fn escape_xml_escapes_markup() {
    assert_eq!(escape_xml("/Apps/A&B <x>.app"), "/Apps/A&amp;B &lt;x&gt;.app");
    assert_eq!(escape_xml("plain"), "plain");
    assert_eq!(escape_xml("&amp;"), "&amp;amp;");
    assert_eq!(escape_xml(""), "");
}

#[test]
fn escape_osascript_escapes_quotes() {
    assert_eq!(escape_osascript("say \"hi\"\\now\nnext"), "say \\\"hi\\\"\\\\now next");
    assert_eq!(escape_osascript("任务"), "任务");
}

#[test]
fn notify_script_quotes_both_parts() {
    assert_eq!(
        notify_script("标题\"", "正文\n两行"),
        "display notification \"正文 两行\" with title \"标题\\\"\""
    );
}

#[test]
fn autostart_plist_names_the_program() {
    let p = autostart_plist("/Applications/A&B.app/Contents/MacOS/a");
    assert!(p.starts_with("<?xml version=\"1.0\" encoding=\"UTF-8\"?>\n<!DOCTYPE plist"));
    assert!(p.contains("<key>Label</key><string>com.zhuanz.mytask</string>\n"));
    assert!(p.contains("<key>Program</key><string>/Applications/A&amp;B.app/Contents/MacOS/a</string>\n"));
    assert!(p.ends_with("<key>ProcessType</key><string>Interactive</string>\n</dict>\n</plist>\n"));
}

#[test]
fn trim_removes_unicode_whitespace() {
    assert_eq!(trim("  a b \t\n"), "a b");
    assert_eq!(trim("\u{3000}任务\u{00a0}"), "任务");
    assert_eq!(trim("   "), "");
}

#[test]
fn routes_only_the_main_key_to_the_tables() {
    assert!(store_route("wb_taskdeck_data_v1") == StoreRoute::Document);
    assert!(store_route("wb_ai_config") == StoreRoute::Raw);
    assert!(store_route("wb_taskdeck_data_v1 ") == StoreRoute::Raw);
}

#[test]
fn migrates_only_into_empty_tables() {
    assert!(should_migrate(true, 0));
    assert!(!should_migrate(true, 3));
    assert!(!should_migrate(false, 0));
}

#[test]
fn schema_steps_create_then_upgrade() {
    let steps = init_schema();
    assert_eq!(steps.len(), 32);
    assert!(matches!(steps[0], SchemaStep::Create("CREATE TABLE IF NOT EXISTS store(k TEXT PRIMARY KEY, v TEXT)")));
    assert!(matches!(
        steps[11],
        SchemaStep::EnsureColumn { table: "projects", column: "client_id", decl: "TEXT" }
    ));
    assert!(matches!(steps[13], SchemaStep::SeedStages));
    assert!(matches!(
        steps[29],
        SchemaStep::EnsureColumn { table: "notes", column: "tags", decl: "TEXT" }
    ));
    assert!(matches!(
        steps[31],
        SchemaStep::Create("CREATE TABLE IF NOT EXISTS app_meta(k TEXT PRIMARY KEY, v TEXT)")
    ));
}

#[test]
fn default_stages() {
    let s = stage_seeds();
    assert_eq!(s.len(), 4);
    assert_eq!((s[0].id, s[0].name, s[0].ord, s[0].landed), ("st_pre", "售前阶段", 1, 0));
    assert_eq!((s[3].id, s[3].name, s[3].ord, s[3].landed), ("st_accept", "已验收", 4, 1));
    assert!(needs_stage_seed(0));
    assert!(!needs_stage_seed(4));
}

#[test]
fn column_probe_and_statements() {
    let cols = strings(&["id", "name", "color"]);
    assert!(has_column(&cols, "name"));
    assert!(!has_column(&cols, "client_id"));
    assert!(!has_column(&Vec::new(), "id"));
    assert_eq!(table_info_sql("projects"), "PRAGMA table_info(projects)");
    assert_eq!(add_column_sql("notes", "tags", "TEXT"), "ALTER TABLE notes ADD COLUMN tags TEXT");
}

#[test]
fn data_dir_from_config() {
    assert_eq!(custom_data_dir("  /data/tasks \n"), Some("/data/tasks".to_string()));
    assert_eq!(custom_data_dir(" \n"), None);
    assert_eq!(custom_data_dir(""), None);
}

#[test]
fn menu_and_tray_routing() {
    assert!(reveal_target("snapshots") == RevealTarget::Snapshots);
    assert!(reveal_target("data") == RevealTarget::Data);
    assert!(reveal_target("") == RevealTarget::Data);
    assert!(menu_action("quit") == MenuAction::Quit);
    assert!(menu_action("export") == MenuAction::Forward);
    assert!(tray_action("show") == TrayAction::Show);
    assert!(tray_action("new") == TrayAction::NewTask);
    assert!(tray_action("quit") == TrayAction::Quit);
    assert!(tray_action("about") == TrayAction::Ignore);
}

#[test]
fn registry_output_names_the_entry() {
    assert!(registry_has_entry("HKEY_CURRENT_USER\\...\\Run\n    todo-list    REG_SZ    C:\\a.exe\n"));
    assert!(registry_has_entry("todo-list"));
    assert!(!registry_has_entry("ERROR: The system was unable to find the specified registry key"));
    assert!(!registry_has_entry("todo-lis"));
    assert!(!registry_has_entry(""));
}

#[test]
fn snapshot_names_and_ordering() {
    assert!(snapshot_name(&"tasks-2026-01-02.db".to_string()));
    assert!(!snapshot_name(&"tasks-2026-01-02.db-journal".to_string()));
    assert!(!snapshot_name(&"notes-2026.db".to_string()));
    assert_eq!(snapshot_file_name("2026-08-09"), "tasks-2026-08-09.db");
    assert!(worth_snapshot(1));
    assert!(!worth_snapshot(0));
    assert!(lex_le_exec(&"ab".chars().collect(), &"b".chars().collect()));
    assert!(lex_le_exec(&"a".chars().collect(), &"ab".chars().collect()));
    assert!(!lex_le_exec(&"b".chars().collect(), &"ab".chars().collect()));

    let names = strings(&["tasks-2026-01-03.db", "readme.txt", "tasks-2025-12-31.db", "tasks-2026-01-01.db"]);
    assert_eq!(
        list_snapshots(&names),
        strings(&["tasks-2025-12-31.db", "tasks-2026-01-01.db", "tasks-2026-01-03.db"])
    );
    assert!(list_snapshots(&strings(&["a.db"])).is_empty());
}

#[test]
fn pruning_keeps_the_newest() {
    assert_eq!(KEEP_SNAPSHOTS, 7);
    let files: Vec<String> = (1..=9).map(|d| format!("tasks-2026-01-0{}.db", d)).collect();
    assert_eq!(snapshots_to_prune(&files), strings(&["tasks-2026-01-01.db", "tasks-2026-01-02.db"]));
    assert!(snapshots_to_prune(&files[..7].to_vec()).is_empty());
    assert_eq!(snapshot_label(&files), "2026-01-09");
    assert_eq!(snapshot_label(&Vec::new()), "");
    assert_eq!(snapshot_label(&strings(&["tasks-tasks-x.db.db"])), "x");
}

#[test]
fn table_descriptions() {
    assert_eq!(Table::ProjStages.name(), "proj_stages");
    assert_eq!(Table::AppMeta.name(), "app_meta");
    assert!(Table::Tasks.sorted());
    assert!(!Table::ProjStages.sorted());
    assert!(!Table::Logs.sorted());
    let cols = Table::Tasks.columns();
    assert_eq!(cols.len(), 19);
    assert_eq!((cols[1].key, cols[1].name), ("projectId", "project_id"));
    assert_eq!(Table::Projects.columns()[12].name, "client_id");
}
