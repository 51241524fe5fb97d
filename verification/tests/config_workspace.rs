use remotty::toml_doc::Toml;
use remotty::config_workspace::{
    upsert_workspace_document,
    format_remote_control_setup_message, is_placeholder_path, normalize_path_string,
    plan_workspace_upsert, plan_workspace_upsert_for_path, render_workspace_path, telegram_token_is_configured, workspace_hash,
    workspace_id_base, workspace_id_from_name, WorkspaceEntry, WorkspaceUpsertResult,
};

fn entry(id: Option<&str>, path: Option<&str>) -> WorkspaceEntry {
    WorkspaceEntry {
        is_table: true,
        id: id.map(ToOwned::to_owned),
        path: path.map(ToOwned::to_owned),
    }
}

#[test]
fn render_workspace_path_strips_extended_prefixes() {
    assert_eq!(render_workspace_path(r"\\?\C:\work\repo"), "C:/work/repo");
    assert_eq!(render_workspace_path(r"\\?\UNC\server\share"), "//server/share");
    assert_eq!(render_workspace_path("/home/me/repo"), "/home/me/repo");
}

#[test]
fn normalized_paths_ignore_case_slashes_and_trailing_separator() {
    assert_eq!(normalize_path_string(r"C:\Work\Repo\"), "c:/work/repo");
    assert!(is_placeholder_path(r"C:\path\to\workspace"));
    assert!(!is_placeholder_path("C:/real/project"));
}

#[test]
fn workspace_ids_come_from_the_directory_name() {
    assert_eq!(workspace_id_from_name(Some("My Project!")), "my-project");
    assert_eq!(workspace_id_from_name(Some("---")), "project");
    assert_eq!(workspace_id_from_name(None), "project");
    assert_eq!(workspace_id_from_name(Some("ÄBC")), "bc");
    assert_eq!(workspace_id_base("/home/me/Remotty_App"), "remotty-app");
}

#[test]
fn workspace_hash_is_the_start_of_the_path_uuid() {
    let expected: String = uuid::Uuid::new_v5(&uuid::Uuid::NAMESPACE_URL, b"C:/work/repo")
        .simple()
        .to_string()
        .chars()
        .take(8)
        .collect();
    assert_eq!(workspace_hash(r"C:\work\repo"), expected);
    assert_eq!(workspace_hash("C:/work/repo").len(), 8);
}

#[test]
fn upsert_workspace_creates_entry_when_missing() {
    let plan = plan_workspace_upsert(true, true, &Vec::new(), "C:/work/repo", Some("repo"))
        .expect("plan");
    assert_eq!(plan.reuse_index, None);
    assert_eq!(plan.workspace_id, "repo");
    assert_eq!(plan.path, "C:/work/repo");
    assert!(plan.keep.is_empty());
}

/// The entry that a plan writes, as the next plan reads it back.
fn written_entry(id: &str, path: &str) -> WorkspaceEntry {
    entry(Some(id), Some(path))
}

fn workspaces_of(doc: &Toml) -> Vec<Toml> {
    match doc {
        Toml::Table(entries) => entries
            .iter()
            .find(|(k, _)| k == "workspaces")
            .map(|(_, v)| match v {
                Toml::Array(items) => items.iter().map(|t| t.deep_clone()).collect(),
                _ => Vec::new(),
            })
            .unwrap_or_default(),
        _ => Vec::new(),
    }
}

fn field<'a>(item: &'a Toml, key: &str) -> Option<&'a Toml> {
    match item {
        Toml::Table(entries) => entries.iter().find(|(k, _)| k == key).map(|(_, v)| v),
        _ => None,
    }
}

fn str_field(item: &Toml, key: &str) -> Option<String> {
    match field(item, key) {
        Some(Toml::Str(s)) => Some(s.clone()),
        _ => None,
    }
}

#[test]
fn upsert_workspace_does_not_duplicate_same_path() {
    let workspace = "/tmp/work/app";
    let empty = Toml::Table(Vec::new());
    let (first_doc, first) = upsert_workspace_document(&empty, workspace).expect("first upsert");
    let (second_doc, second) = upsert_workspace_document(&first_doc, workspace).expect("second upsert");
    assert_eq!(workspaces_of(&second_doc).len(), 1);
    assert_eq!(second.reuse_index, Some(0));
    assert_eq!(second.workspace_id, first.workspace_id);
    assert_eq!(second.workspace_id, "app");
}

#[test]
fn upsert_workspace_adds_hash_when_id_collides() {
    let first_path = "/tmp/work/one/app";
    let second_path = "/tmp/work/two/app";
    let empty = Toml::Table(Vec::new());
    let (first_doc, first) = upsert_workspace_document(&empty, first_path).expect("first upsert");
    let (second_doc, second) = upsert_workspace_document(&first_doc, second_path).expect("second upsert");

    assert_eq!(first.workspace_id, "app");
    assert!(second.workspace_id.starts_with("app-"));
    assert_eq!(second.workspace_id, format!("app-{}", workspace_hash(second_path)));
    assert_ne!(first.workspace_id, second.workspace_id);
    let ids: Vec<Option<String>> = workspaces_of(&second_doc).iter().map(|w| str_field(w, "id")).collect();
    assert_eq!(ids, vec![Some(second.workspace_id.clone()), Some("app".to_owned())]);
}

#[test]
fn upsert_document_writes_the_entry_first_with_defaults() {
    let other = Toml::Table(vec![
        ("id".to_owned(), Toml::Str("other".to_owned())),
        ("path".to_owned(), Toml::Str("C:/other".to_owned())),
    ]);
    let old = Toml::Table(vec![
        ("id".to_owned(), Toml::Str("repo".to_owned())),
        ("path".to_owned(), Toml::Str(r"C:\Work\Repo".to_owned())),
        ("default_mode".to_owned(), Toml::Str("infinite".to_owned())),
    ]);
    let doc = Toml::Table(vec![
        ("service".to_owned(), Toml::Table(vec![("poll_timeout_sec".to_owned(), Toml::Integer(30))])),
        ("workspaces".to_owned(), Toml::Array(vec![other, old])),
    ]);
    let (updated, plan) = upsert_workspace_document(&doc, "C:/work/repo").expect("upsert");
    assert_eq!(plan.reuse_index, Some(1));
    let items = workspaces_of(&updated);
    assert_eq!(items.len(), 2);
    assert_eq!(str_field(&items[0], "id").as_deref(), Some("repo"));
    assert_eq!(str_field(&items[0], "path").as_deref(), Some("C:/work/repo"));
    assert_eq!(str_field(&items[0], "default_mode").as_deref(), Some("infinite"));
    assert_eq!(str_field(&items[0], "checks_profile").as_deref(), Some("default"));
    assert!(matches!(field(&items[0], "writable_roots"), Some(Toml::Array(roots)) if roots.len() == 1));
    assert_eq!(str_field(&items[1], "id").as_deref(), Some("other"));
    assert!(matches!(field(&updated, "service"), Some(Toml::Table(_))));
}

#[test]
fn upsert_document_rejects_malformed_documents() {
    assert_eq!(
        upsert_workspace_document(&Toml::Integer(1), "/w/app").err(),
        Some("bridge.toml root must be a table".to_owned())
    );
    let doc = Toml::Table(vec![("workspaces".to_owned(), Toml::Str("x".to_owned()))]);
    assert_eq!(
        upsert_workspace_document(&doc, "/w/app").err(),
        Some("workspaces must be an array".to_owned())
    );
}

#[test]
fn upsert_workspace_creates_config_when_missing() {
    let plan = plan_workspace_upsert_for_path(true, true, &Vec::new(), "C:/work/Project One")
        .expect("workspace should upsert");
    assert_eq!(plan.workspace_id, "project-one");
    assert_eq!(plan.path, "C:/work/Project One");
    assert_eq!(plan.reuse_index, None);
}

#[test]
fn plan_reuses_the_entry_for_the_same_directory() {
    let entries = vec![
        entry(Some("other"), Some("C:/other")),
        entry(Some("repo"), Some(r"C:\Work\Repo\")),
        entry(Some("dup"), Some("c:/work/repo")),
    ];
    let plan = plan_workspace_upsert(true, true, &entries, "C:/work/repo", Some("repo"))
        .expect("plan");
    assert_eq!(plan.reuse_index, Some(1));
    assert_eq!(plan.workspace_id, "repo");
    assert_eq!(plan.keep, vec![0]);
}

#[test]
fn plan_appends_the_path_hash_to_a_taken_id() {
    let entries = vec![entry(Some("repo"), Some("C:/elsewhere/repo"))];
    let plan = plan_workspace_upsert(true, true, &entries, "C:/work/repo", Some("repo"))
        .expect("plan");
    assert_eq!(plan.reuse_index, None);
    assert_eq!(
        plan.workspace_id,
        format!("repo-{}", workspace_hash("C:/work/repo"))
    );
    assert_eq!(plan.keep, vec![0]);
}

#[test]
fn upsert_workspace_replaces_placeholder_entry() {
    let entries = vec![entry(Some("main"), Some("C:/path/to/workspace"))];
    let plan = plan_workspace_upsert(true, true, &entries, "C:/work/repo", Some("repo"))
        .expect("plan");
    assert_eq!(plan.reuse_index, Some(0));
    assert_eq!(plan.workspace_id, "repo");
    assert!(plan.keep.is_empty());
}

#[test]
fn upsert_workspace_rejects_malformed_documents() {
    assert_eq!(
        plan_workspace_upsert(false, true, &Vec::new(), "C:/w", None).err(),
        Some("bridge.toml root must be a table".to_owned())
    );
    assert_eq!(
        plan_workspace_upsert(true, false, &Vec::new(), "C:/w", None).err(),
        Some("workspaces must be an array".to_owned())
    );
    let entries = vec![WorkspaceEntry {
        is_table: false,
        id: None,
        path: None,
    }];
    assert!(plan_workspace_upsert(true, true, &entries, "C:/w", None).is_ok());
}

#[test]
fn remote_control_setup_message_lists_project() {
    let message = format_remote_control_setup_message(&WorkspaceUpsertResult {
        workspace_id: "repo".to_owned(),
        workspace_path: r"\\?\C:\work\repo".to_owned(),
        config_path: "bridge.toml".to_owned(),
        created_config: false,
    });
    assert_eq!(
        message,
        "Remote Control\nProject `repo` is registered for Telegram remote control.\nConfig: bridge.toml\nWorkspace: C:/work/repo\nSend a Telegram message to the bot. First-time users get a pairing code automatically."
    );
    assert!(telegram_token_is_configured(Some("t"), None));
    assert!(!telegram_token_is_configured(Some(" "), Some("t")));
    assert!(telegram_token_is_configured(None, Some("t")));
    assert!(!telegram_token_is_configured(None, None));
}
