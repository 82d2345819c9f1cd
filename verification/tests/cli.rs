use actias::bundle::{Bundle, File};
use actias::cli::commands::{
    page_or_first, revision_to_clone, Commands, ProjectOperations, RevisionCommands,
    ScriptOperations,
};
use actias::cli::errors::{print_error, progenitor_error, Error};
use actias::cli::router::{Client, Handler, Router};
use actias::cli::script::{BundleDto, DiskFile, FileDto, ScriptConfig};
use actias::cli::settings::Settings;
use actias::cli::util::{
    bundle_from_dto, bundle_to_dto, check_clone_dir, get_dir, write_revision, DirAction, DirState,
};
use actias::config::Config as WorkerConfig;
use actias::ids::id_text;
use actias::kv::config::Config as KvConfig;
use actias::script_service::config::Config as ScriptServiceConfig;
use actias::script_service::live_script::{
    LiveScript, LiveScriptError, LiveScriptManager, ScriptConfig as ConfigMessage,
};
use actias::script_service::model::ScriptConfig as StoredConfig;
use actias::script_service::store::ScriptService;
use actias::error::ErrorKind;
use actias::text::{basename, split, str_eq, substring};

fn manifest(includes: &[&str], ignore: &[&str]) -> ScriptConfig {
    ScriptConfig {
        project_path: Some("/work/project".to_string()),
        id: None,
        entry_point: "main.lua".to_string(),
        includes: includes.iter().map(|s| s.to_string()).collect(),
        ignore: ignore.iter().map(|s| s.to_string()).collect(),
    }
}

fn disk(path: &str, content: &[u8]) -> DiskFile {
    DiskFile { path: path.to_string(), content: content.to_vec() }
}

fn project() -> Vec<DiskFile> {
    vec![
        disk("main.lua", b"return 1"),
        disk("script.json", b"{}"),
        disk("lib/util.lua", &[0, 159, 255]),
        disk("lib/notes.txt", b"notes"),
        disk("definitions/kv.lua", b"-- types"),
    ]
}

#[test]
fn errors_are_written_with_their_names() {
    assert_eq!(Error::Authentication("a".to_string()).to_text(), "Authentication Error: a");
    assert_eq!(Error::Permission("a".to_string()).to_text(), "Permission Error: a");
    assert_eq!(Error::Api("a".to_string()).to_text(), "API Error: a");
    assert_eq!(Error::Io("a".to_string()).to_text(), "IO Error: a");
    assert_eq!(Error::Config("a".to_string()).to_text(), "Configuration Error: a");
    assert_eq!(Error::Script("a".to_string()).to_text(), "Script Error: a");
    assert_eq!(Error::Command("a".to_string()).to_text(), "Command Error: a");
    assert_eq!(Error::NotFound("a".to_string()).to_text(), "Not Found: a");
}

#[test]
fn errors_are_shown_behind_a_cross() {
    assert_eq!(print_error(&Error::Api("down".to_string())), "\u{274c} API Error: down");
    assert_eq!(print_error(&Error::Command("what".to_string())), "\u{274c} Error: what");
    assert_eq!(print_error(&Error::NotFound("x".to_string())), "\u{274c} Not Found: x");
}

#[test]
fn a_failed_call_is_an_api_error() {
    assert_eq!(progenitor_error("timeout".to_string()), Error::Api("timeout".to_string()));
    assert_eq!(Error::from_message("m".to_string()), Error::Command("m".to_string()));
    assert_eq!(Error::Io("disk".to_string()).message(), "disk");
}

#[test]
fn lists_show_the_first_page_unless_asked() {
    assert_eq!(page_or_first(None), 1);
    assert_eq!(page_or_first(Some(7)), 7);
    assert_eq!(page_or_first(Some(-2)), -2);
}

#[test]
fn a_clone_writes_the_named_revision_or_the_current_one() {
    assert_eq!(
        revision_to_clone(Some("a".to_string()), Some("b".to_string())),
        Some("a".to_string())
    );
    assert_eq!(revision_to_clone(None, Some("b".to_string())), Some("b".to_string()));
    assert_eq!(revision_to_clone(None, None), None);
}

#[test]
fn commands_go_to_their_handlers() {
    let settings = Settings::new("http://localhost:3006".to_string(), "secret".to_string());
    let router = Router::new(Client::new(&settings));
    assert_eq!(router.client().base_url, "http://localhost:3006");
    assert_eq!(router.client().authorization, "Bearer secret");
    assert_eq!(router.route(Commands::Login), Handler::Nothing);
    assert_eq!(
        router.route(Commands::Init {
            name: "n".to_string(),
            template: Some("t".to_string()),
            project_id: None,
        }),
        Handler::Init { name: "n".to_string(), project_id: None, template: Some("t".to_string()) }
    );
    assert_eq!(
        router.route(Commands::Publish { directory: "d".to_string() }),
        Handler::Publish { directory: "d".to_string() }
    );
    assert_eq!(
        router.route(Commands::Scripts { project: "p".to_string(), page: None }),
        Handler::ListScripts { project: "p".to_string(), page: 1 }
    );
    assert_eq!(
        router.route(Commands::Projects { page: Some(3) }),
        Handler::ListProjects { page: 3 }
    );
    assert_eq!(
        router.route(Commands::Project { id: "p".to_string(), sub: ProjectOperations::Delete }),
        Handler::Project { id: "p".to_string(), operation: ProjectOperations::Delete }
    );
    let sub = ScriptOperations::Revisions {
        sub: RevisionCommands::Select { revision_id: "r".to_string() },
    };
    assert_eq!(
        router.route(Commands::Script { id: "s".to_string(), sub }),
        Handler::Script {
            id: "s".to_string(),
            operation: ScriptOperations::Revisions {
                sub: RevisionCommands::Select { revision_id: "r".to_string() },
            },
        }
    );
    assert_eq!(
        router.route(Commands::Check { directory: "d".to_string() }),
        Handler::Check { directory: "d".to_string() }
    );
}

#[test]
fn a_check_passes_where_the_manifest_was_read() {
    let settings = Settings::new("u".to_string(), "t".to_string());
    let router = Router::new(Client::new(&settings));
    assert_eq!(router.handle_check(Ok(())), Ok("\u{1f4dc} Project validated!".to_string()));
    assert_eq!(
        router.handle_check(Err("script.json is missing".to_string())),
        Err(Error::Script("script.json is missing".to_string()))
    );
}

#[test]
fn the_user_logs_in_without_settings_or_on_demand() {
    assert!(Settings::needs_login(false, false));
    assert!(Settings::needs_login(false, true));
    assert!(Settings::needs_login(true, true));
    assert!(!Settings::needs_login(true, false));
    assert!(Settings::announces_login(false, false));
    assert!(!Settings::announces_login(false, true));
    assert!(!Settings::announces_login(true, false));
    let settings = Settings::new("u".to_string(), "abc".to_string());
    assert_eq!(settings.authorization(), "Bearer abc");
}

#[test]
fn services_listen_on_3000_unless_told() {
    let worker = WorkerConfig::new(None, "s".to_string(), "k".to_string());
    assert_eq!(worker.port, 3000);
    assert_eq!(worker.script_service_uri, "s");
    assert_eq!(worker.kv_service_uri, "k");
    assert_eq!(WorkerConfig::new(Some(8080), "s".to_string(), "k".to_string()).port, 8080);
    let scripts = ScriptServiceConfig::new(None, "postgres://db".to_string());
    assert_eq!(scripts.port, 3000);
    assert_eq!(scripts.database_url, "postgres://db");
    let kv = KvConfig::new(Some(1), "a:9042,b:9042,,c");
    assert_eq!(kv.port, 1);
    assert_eq!(kv.scylla_nodes, vec!["a:9042", "b:9042", "", "c"]);
    assert_eq!(KvConfig::new(None, "").scylla_nodes, vec![""]);
    assert_eq!(KvConfig::new(None, "one").port, 3000);
}

#[test]
fn text_is_split_at_every_separator() {
    assert_eq!(split("a,b", ','), vec!["a", "b"]);
    assert_eq!(split(",", ','), vec!["", ""]);
    assert_eq!(split("/foo/x", '/'), vec!["", "foo", "x"]);
    assert_eq!(split("caf\u{e9},\u{20ac}", ','), vec!["caf\u{e9}", "\u{20ac}"]);
    assert_eq!(substring("h\u{e9}llo", 1, 3), "\u{e9}l");
    assert!(str_eq("a\u{e9}", "a\u{e9}"));
    assert!(!str_eq("a", "b"));
    assert!(!str_eq("a", "ab"));
}

#[test]
fn the_last_component_of_a_path() {
    assert_eq!(basename("lib/util.lua"), "util.lua");
    assert_eq!(basename("main.lua"), "main.lua");
    assert_eq!(basename("a/b/c"), "c");
    assert_eq!(basename("a/b/"), "");
    assert_eq!(basename(""), "");
    assert_eq!(basename("/x"), "x");
}

#[test]
fn the_bundle_holds_what_is_included_and_not_ignored() {
    let config = manifest(&["**/*.lua", "script.json"], &["definitions/**"]);
    let files = project();
    let chosen = config.glob_includes(&files).unwrap();
    let paths: Vec<&str> = chosen.iter().map(|&i| files[i].path.as_str()).collect();
    assert_eq!(paths, vec!["lib/util.lua", "main.lua"]);
    assert!(config.includes_path("lib/util.lua"));
    assert!(!config.includes_path("lib/notes.txt"));
    assert!(!config.includes_path("definitions/kv.lua"));
    assert!(!config.includes_path("script.json"));
}

#[test]
fn the_manifest_is_never_part_of_the_bundle() {
    let config = manifest(&["**"], &[]);
    let files = project();
    let chosen = config.glob_includes(&files).unwrap();
    let paths: Vec<&str> = chosen.iter().map(|&i| files[i].path.as_str()).collect();
    assert_eq!(paths, vec!["definitions/kv.lua", "lib/notes.txt", "lib/util.lua", "main.lua"]);
}

#[test]
fn a_pattern_that_is_no_glob_is_refused() {
    let config = manifest(&["**/*.lua", "[unclosed"], &[]);
    assert_eq!(config.glob_includes(&project()), Err("Failed to read glob pattern".to_string()));
    assert_eq!(config.to_bundle(&project()), Err("Failed to read glob pattern".to_string()));
    let config = manifest(&["**/*.lua"], &["{a,b"]);
    assert_eq!(config.glob_includes(&Vec::new()), Err("Failed to read glob pattern".to_string()));
}

#[test]
fn the_uploaded_bundle_carries_unpadded_base64() {
    let config = manifest(&["*.lua", "lib/*"], &["**/*.txt"]);
    let bundle = config.to_bundle(&project()).unwrap();
    assert_eq!(bundle.entry_point, "main.lua");
    assert_eq!(
        bundle.files,
        vec![
            FileDto {
                content: "AJ//".to_string(),
                file_name: "util.lua".to_string(),
                file_path: "lib/util.lua".to_string(),
                revision_id: None,
            },
            FileDto {
                content: "cmV0dXJuIDE".to_string(),
                file_name: "main.lua".to_string(),
                file_path: "main.lua".to_string(),
                revision_id: None,
            },
        ]
    );
}

#[test]
fn the_bundle_is_the_same_in_whatever_order_the_files_are_read() {
    let config = manifest(&["**/*"], &[]);
    let mut files = project();
    let forwards = config.to_bundle(&files).unwrap();
    files.reverse();
    let backwards = config.to_bundle(&files).unwrap();
    files.swap(1, 3);
    let shuffled = config.to_bundle(&files).unwrap();
    assert_eq!(forwards, backwards);
    assert_eq!(forwards, shuffled);
    let paths: Vec<&str> = forwards.files.iter().map(|f| f.file_path.as_str()).collect();
    assert_eq!(paths, vec!["definitions/kv.lua", "lib/notes.txt", "lib/util.lua", "main.lua"]);
}

#[test]
fn a_manifest_takes_the_script_that_it_is_published_as() {
    let config = manifest(&["*.lua"], &[]).with_id("abc".to_string());
    assert_eq!(config.id, Some("abc".to_string()));
    assert_eq!(config.entry_point, "main.lua");
    assert_eq!(config.includes, vec!["*.lua"]);
}

#[test]
fn a_directory_is_used_created_or_refused() {
    let there = DirState { exists: true, is_dir: true, is_empty: false };
    let empty = DirState { exists: true, is_dir: true, is_empty: true };
    let a_file = DirState { exists: true, is_dir: false, is_empty: false };
    let missing = DirState { exists: false, is_dir: false, is_empty: false };
    assert_eq!(get_dir("d", there, false, false), Ok(DirAction::Use));
    assert_eq!(get_dir("d", empty, true, true), Ok(DirAction::Use));
    assert_eq!(get_dir("d", missing, true, true), Ok(DirAction::Create));
    assert_eq!(
        get_dir("d", there, true, true),
        Err("specified directory d is not empty".to_string())
    );
    assert_eq!(get_dir("d", a_file, false, true), Err("specified directory d is a file".to_string()));
    assert_eq!(get_dir("d", missing, false, false), Err("directory d doesn't exist".to_string()));
}

#[test]
fn a_revision_is_written_into_an_empty_directory_or_its_own_project() {
    let own = manifest(&[], &[]).with_id("script-1".to_string());
    assert_eq!(check_clone_dir("script-1", false, None), Ok(()));
    assert_eq!(check_clone_dir("script-1", false, Some(&own)), Ok(()));
    assert_eq!(check_clone_dir("script-1", true, Some(&own)), Ok(()));
    assert_eq!(
        check_clone_dir("script-2", true, Some(&own)),
        Err("Script ID in that directory doesn't match, cannot safely clone".to_string())
    );
    assert_eq!(
        check_clone_dir("script-1", true, None),
        Err("Directory not empty and not a project".to_string())
    );
    let unpublished = manifest(&[], &[]);
    assert!(check_clone_dir("script-1", true, Some(&unpublished)).is_err());
    assert_eq!(check_clone_dir("", true, Some(&unpublished)), Ok(()));
}

#[test]
fn a_revision_is_written_with_its_content_decoded() {
    let bundle = BundleDto {
        entry_point: "main.lua".to_string(),
        files: vec![
            FileDto {
                content: "cmV0dXJuIDE=".to_string(),
                file_name: "main.lua".to_string(),
                file_path: "main.lua".to_string(),
                revision_id: Some("r".to_string()),
            },
            FileDto {
                content: "AJ//".to_string(),
                file_name: "util.lua".to_string(),
                file_path: "lib/util.lua".to_string(),
                revision_id: Some("r".to_string()),
            },
        ],
    };
    assert_eq!(
        write_revision(&bundle),
        Some(vec![disk("main.lua", b"return 1"), disk("lib/util.lua", &[0, 159, 255])])
    );
    let mut damaged = bundle.clone();
    damaged.files[0].content = "cmV0dXJuIDE".to_string();
    assert_eq!(write_revision(&damaged), None);
}

#[test]
fn a_published_project_is_cloned_byte_for_byte() {
    let files = project();
    let script_id = id_text(0x51);
    let config = manifest(&["**/*"], &["definitions/**"]).with_id(script_id.clone());
    let uploaded = config.to_bundle(&files).unwrap();
    let taken = bundle_from_dto(&uploaded).expect("the upload is base64");
    let mut service = ScriptService::new();
    service.create_script(&id_text(1), "foo", 0x51, 1).unwrap();
    let stored_config = StoredConfig {
        id: 0x51,
        entry_point: config.entry_point.clone(),
        includes: config.includes.clone(),
        ignore: config.ignore.clone(),
    };
    let created = service.create_revision(&script_id, &stored_config, &taken, 0x52, 2).unwrap();
    let fetched = service.get_revision(&created.id, true).unwrap();
    assert_eq!(id_text(fetched.script_config.id), script_id);
    assert_eq!(fetched.script_id, script_id);
    let shown = bundle_to_dto(&fetched.bundle.unwrap());
    let written = write_revision(&shown).expect("the download is base64");
    let mut expected: Vec<DiskFile> = files
        .iter()
        .filter(|f| f.path != "script.json" && !f.path.starts_with("definitions/"))
        .cloned()
        .collect();
    expected.sort_by(|a, b| a.path.cmp(&b.path));
    assert_eq!(written, expected);
    assert_eq!(check_clone_dir(&fetched.script_id, true, Some(&config)), Ok(()));
}

#[test]
fn a_bundle_travels_inside_json_as_base64() {
    let bundle = Bundle {
        entry_point: "main".to_string(),
        files: vec![File {
            file_name: "main".to_string(),
            file_path: "main".to_string(),
            content: vec![255, 0],
            revision_id: Some("r".to_string()),
        }],
    };
    let dto = bundle_to_dto(&bundle);
    assert_eq!(dto.files[0].content, "/wA=");
    assert_eq!(dto.files[0].revision_id, Some("r".to_string()));
    let upload = BundleDto {
        entry_point: "main".to_string(),
        files: vec![FileDto {
            content: "/wA".to_string(),
            file_name: "main".to_string(),
            file_path: "main".to_string(),
            revision_id: None,
        }],
    };
    let taken = bundle_from_dto(&upload).unwrap();
    assert_eq!(taken.files[0].content, vec![255, 0]);
    assert_eq!(bundle_from_dto(&dto), None);
}

fn live(script: &str, manifest_id: &str) -> LiveScript {
    LiveScript {
        script_id: script.to_string(),
        script_config: ConfigMessage {
            id: manifest_id.to_string(),
            entry_point: "main".to_string(),
            includes: vec!["*".to_string()],
            ignore: vec![],
        },
        bundle: Bundle { entry_point: "main".to_string(), files: vec![] },
    }
}

#[test]
fn a_session_holds_what_it_was_opened_with() {
    let mut manager = LiveScriptManager::new();
    let session = manager.put_session(live("s1", "s1")).unwrap();
    let other = manager.put_session(live("s1", "s1")).unwrap();
    assert_ne!(session, other);
    let held = manager.get_session("s1", &id_text(session)).unwrap().unwrap();
    assert_eq!(held.script_config, live("s1", "s1").script_config);
    assert_eq!(held.bundle, live("s1", "s1").bundle);
    assert_eq!(manager.get_session("s2", &id_text(session)), Ok(None));
    assert_eq!(manager.get_session("s1", "nope"), Ok(None));
}

#[test]
fn a_session_needs_a_manifest_of_its_script() {
    let mut manager = LiveScriptManager::new();
    let error = manager.put_session(live("s1", "s2")).unwrap_err();
    assert_eq!(
        error,
        LiveScriptError::LiveScriptError("Script ID does not match script config".to_string())
    );
    let status = error.into_status();
    assert_eq!(status.kind, ErrorKind::InvalidArgument);
    assert_eq!(status.message, "Script ID does not match script config");
    assert_eq!(
        LiveScriptError::RedisError("down".to_string()).into_status().kind,
        ErrorKind::Internal
    );
    assert_eq!(
        LiveScriptError::PoolError("full".to_string()).into_status().kind,
        ErrorKind::Internal
    );
}

#[test]
fn sessions_are_closed_one_by_one_or_by_script() {
    let mut manager = LiveScriptManager::new();
    let a = id_text(manager.put_session(live("s1", "s1")).unwrap());
    let b = id_text(manager.put_session(live("s1", "s1")).unwrap());
    let c = id_text(manager.put_session(live("s2", "s2")).unwrap());
    manager.delete_session("s1", &a).unwrap();
    assert_eq!(manager.get_session("s1", &a), Ok(None));
    assert!(manager.get_session("s1", &b).unwrap().is_some());
    manager.delete_script("s1").unwrap();
    assert_eq!(manager.get_session("s1", &b), Ok(None));
    assert!(manager.get_session("s2", &c).unwrap().is_some());
    manager.delete_session("s2", "nope").unwrap();
    assert!(manager.get_session("s2", &c).unwrap().is_some());
}
