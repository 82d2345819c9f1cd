use actias::bundle::{Bundle, File};
use actias::error::ErrorKind;
use actias::ids::id_text;
use actias::script_service::model::{ScriptConfig, ScriptQuery};
use actias::script_service::store::ScriptService;

const PROJECT: u128 = 0x1000;
const OTHER_PROJECT: u128 = 0x2000;

fn file(name: &str, path: &str, content: &[u8]) -> File {
    File {
        file_name: name.to_string(),
        file_path: path.to_string(),
        content: content.to_vec(),
        revision_id: None,
    }
}

fn bundle(entry: &str, files: Vec<File>) -> Bundle {
    Bundle { entry_point: entry.to_string(), files }
}

fn config(id: u128) -> ScriptConfig {
    ScriptConfig {
        id,
        entry_point: "main.lua".to_string(),
        includes: vec!["**/*.lua".to_string()],
        ignore: vec![],
    }
}

fn main_bundle() -> Bundle {
    bundle(
        "main.lua",
        vec![
            file("main.lua", "main.lua", b"add_event_listener('fetch', function() end)"),
            file("util.lua", "lib/util.lua", &[0u8, 159, 146, 150, 255]),
        ],
    )
}

fn service_with_script(id: u128, label: &str) -> ScriptService {
    let mut service = ScriptService::new();
    service.create_script(&id_text(PROJECT), label, id, 100).expect("script is created");
    service
}

#[test]
fn a_new_script_has_no_revision() {
    let mut service = ScriptService::new();
    let script = service.create_script(&id_text(PROJECT), "foo", 1, 100).unwrap();
    assert_eq!(script.id, id_text(1));
    assert_eq!(script.project_id, id_text(PROJECT));
    assert_eq!(script.public_identifier, "foo");
    assert_eq!(script.last_updated, 100);
    assert_eq!(script.current_revision_id, None);
    assert_eq!(service.script_count(), 1);
}

#[test]
fn a_routing_label_is_taken_once() {
    let mut service = service_with_script(1, "foo");
    let status = service.create_script(&id_text(OTHER_PROJECT), "foo", 2, 101).unwrap_err();
    assert_eq!(status.kind, ErrorKind::AlreadyExists);
    assert_eq!(status.message, "Script with that identifier already exists");
    assert_eq!(service.script_count(), 1);
}

#[test]
fn a_script_needs_a_project_that_is_an_identifier() {
    let mut service = ScriptService::new();
    let status = service.create_script("project", "foo", 1, 100).unwrap_err();
    assert_eq!(status.kind, ErrorKind::InvalidArgument);
    assert_eq!(service.script_count(), 0);
}

#[test]
fn a_script_identifier_is_taken_once() {
    let mut service = service_with_script(1, "foo");
    let status = service.create_script(&id_text(PROJECT), "bar", 1, 101).unwrap_err();
    assert_eq!(status.kind, ErrorKind::Internal);
}

#[test]
fn a_script_is_found_by_identifier_and_by_label() {
    let service = service_with_script(7, "foo");
    let by_id = service.query_script(&ScriptQuery::Id(id_text(7))).unwrap();
    let by_label = service.query_script(&ScriptQuery::PublicName("foo".to_string())).unwrap();
    assert_eq!(by_id, by_label);
    assert_eq!(by_id.public_identifier, "foo");
}

#[test]
fn a_script_that_is_not_there_is_not_found() {
    let service = service_with_script(7, "foo");
    let status = service.query_script(&ScriptQuery::Id(id_text(8))).unwrap_err();
    assert_eq!(status.kind, ErrorKind::NotFound);
    assert_eq!(status.message, "Script with that id was not found");
    let status = service.query_script(&ScriptQuery::PublicName("bar".to_string())).unwrap_err();
    assert_eq!(status.kind, ErrorKind::NotFound);
    assert_eq!(status.message, "Script with that identifier was not found");
    let status = service.query_script(&ScriptQuery::Id("seven".to_string())).unwrap_err();
    assert_eq!(status.kind, ErrorKind::InvalidArgument);
    assert_eq!(status.message, "'id' was not a valid uuid");
}

#[test]
fn a_created_revision_becomes_the_current_one() {
    let mut service = service_with_script(1, "foo");
    let revision =
        service.create_revision(&id_text(1), &config(1), &main_bundle(), 10, 200).unwrap();
    assert_eq!(revision.id, id_text(10));
    assert_eq!(revision.script_id, id_text(1));
    assert_eq!(revision.created, 200);
    assert_eq!(revision.script_config, config(1));
    assert_eq!(revision.bundle, None);
    let script = service.query_script(&ScriptQuery::Id(id_text(1))).unwrap();
    assert_eq!(script.current_revision_id, Some(id_text(10)));
    assert_eq!(script.last_updated, 200);
}

#[test]
fn stored_files_come_back_byte_for_byte() {
    let mut service = service_with_script(1, "foo");
    let sent = main_bundle();
    service.create_revision(&id_text(1), &config(1), &sent, 10, 200).unwrap();
    let fetched = service.get_revision(&id_text(10), true).unwrap();
    let got = fetched.bundle.expect("the bundle was asked for");
    assert_eq!(got.entry_point, "main.lua");
    assert_eq!(got.files.len(), sent.files.len());
    for (a, b) in got.files.iter().zip(sent.files.iter()) {
        assert_eq!(a.file_name, b.file_name);
        assert_eq!(a.file_path, b.file_path);
        assert_eq!(a.content, b.content);
        assert_eq!(a.revision_id, Some(id_text(10)));
    }
}

#[test]
fn a_revision_is_fetched_without_its_bundle_unless_asked() {
    let mut service = service_with_script(1, "foo");
    service.create_revision(&id_text(1), &config(1), &main_bundle(), 10, 200).unwrap();
    let fetched = service.get_revision(&id_text(10), false).unwrap();
    assert_eq!(fetched.bundle, None);
    assert_eq!(fetched.id, id_text(10));
}

#[test]
fn a_revision_that_is_not_there_is_not_found() {
    let service = service_with_script(1, "foo");
    let status = service.get_revision(&id_text(10), true).unwrap_err();
    assert_eq!(status.kind, ErrorKind::NotFound);
    assert_eq!(status.message, "Revision with that ID was not found");
    let status = service.get_revision("ten", true).unwrap_err();
    assert_eq!(status.kind, ErrorKind::InvalidArgument);
}

#[test]
fn a_manifest_of_another_script_is_refused() {
    let mut service = service_with_script(1, "foo");
    let status =
        service.create_revision(&id_text(1), &config(2), &main_bundle(), 10, 200).unwrap_err();
    assert_eq!(status.kind, ErrorKind::InvalidArgument);
    assert_eq!(status.message, "Script config contains a different ID than the target.");
    assert_eq!(service.revision_count(), 0);
    let script = service.query_script(&ScriptQuery::Id(id_text(1))).unwrap();
    assert_eq!(script.current_revision_id, None);
}

#[test]
fn a_revision_needs_its_script() {
    let mut service = service_with_script(1, "foo");
    let status =
        service.create_revision(&id_text(5), &config(5), &main_bundle(), 10, 200).unwrap_err();
    assert_eq!(status.kind, ErrorKind::NotFound);
    let status =
        service.create_revision("five", &config(5), &main_bundle(), 10, 200).unwrap_err();
    assert_eq!(status.kind, ErrorKind::InvalidArgument);
}

#[test]
fn the_entry_point_must_be_a_file_of_the_bundle() {
    let mut service = service_with_script(1, "foo");
    let sent = bundle("start.lua", vec![file("main.lua", "main.lua", b"x")]);
    let status = service.create_revision(&id_text(1), &config(1), &sent, 10, 200).unwrap_err();
    assert_eq!(status.kind, ErrorKind::InvalidArgument);
    assert_eq!(status.message, "Entry point is not a file of the bundle.");
}

#[test]
fn a_path_occurs_once_in_a_bundle() {
    let mut service = service_with_script(1, "foo");
    let sent = bundle(
        "main.lua",
        vec![file("main.lua", "main.lua", b"x"), file("main.lua", "main.lua", b"y")],
    );
    let status = service.create_revision(&id_text(1), &config(1), &sent, 10, 200).unwrap_err();
    assert_eq!(status.kind, ErrorKind::InvalidArgument);
    assert_eq!(status.message, "A file path occurs twice in the bundle.");
}

#[test]
fn a_revision_identifier_is_taken_once() {
    let mut service = service_with_script(1, "foo");
    service.create_revision(&id_text(1), &config(1), &main_bundle(), 10, 200).unwrap();
    let status =
        service.create_revision(&id_text(1), &config(1), &main_bundle(), 10, 201).unwrap_err();
    assert_eq!(status.kind, ErrorKind::Internal);
    assert_eq!(service.revision_count(), 1);
}

fn service_with_three_revisions() -> ScriptService {
    let mut service = service_with_script(1, "foo");
    service.create_revision(&id_text(1), &config(1), &main_bundle(), 11, 201).unwrap();
    service.create_revision(&id_text(1), &config(1), &main_bundle(), 12, 202).unwrap();
    service.create_revision(&id_text(1), &config(1), &main_bundle(), 13, 203).unwrap();
    service
}

#[test]
fn deleting_the_current_revision_promotes_the_oldest_remaining() {
    let mut service = service_with_three_revisions();
    service.set_script_revision(&id_text(1), &id_text(13), 300).unwrap();
    let answer = service.delete_revision(&id_text(13), 301).unwrap();
    assert_eq!(answer.script_id, id_text(1));
    assert_eq!(answer.revision_id, Some(id_text(11)));
    let script = service.query_script(&ScriptQuery::Id(id_text(1))).unwrap();
    assert_eq!(script.current_revision_id, Some(id_text(11)));
    assert_eq!(script.last_updated, 301);
    assert_eq!(service.revision_count(), 2);
}

#[test]
fn deleting_the_oldest_revision_promotes_the_next() {
    let mut service = service_with_three_revisions();
    let answer = service.delete_revision(&id_text(11), 301).unwrap();
    assert_eq!(answer.revision_id, Some(id_text(12)));
}

#[test]
fn deleting_the_last_revision_leaves_no_current_one() {
    let mut service = service_with_script(1, "foo");
    service.create_revision(&id_text(1), &config(1), &main_bundle(), 11, 201).unwrap();
    let answer = service.delete_revision(&id_text(11), 301).unwrap();
    assert_eq!(answer.revision_id, None);
    let script = service.query_script(&ScriptQuery::Id(id_text(1))).unwrap();
    assert_eq!(script.current_revision_id, None);
    assert_eq!(service.revision_count(), 0);
}

#[test]
fn the_oldest_is_told_by_the_moment_of_creation() {
    let mut service = service_with_script(1, "foo");
    service.create_revision(&id_text(1), &config(1), &main_bundle(), 11, 500).unwrap();
    service.create_revision(&id_text(1), &config(1), &main_bundle(), 12, 100).unwrap();
    service.create_revision(&id_text(1), &config(1), &main_bundle(), 13, 300).unwrap();
    let answer = service.delete_revision(&id_text(13), 600).unwrap();
    assert_eq!(answer.revision_id, Some(id_text(12)));
}

#[test]
fn deleting_a_revision_that_is_not_there_changes_nothing() {
    let mut service = service_with_three_revisions();
    let status = service.delete_revision(&id_text(99), 301).unwrap_err();
    assert_eq!(status.kind, ErrorKind::NotFound);
    assert_eq!(service.revision_count(), 3);
}

#[test]
fn a_revision_of_another_script_cannot_be_set() {
    let mut service = service_with_three_revisions();
    service.create_script(&id_text(PROJECT), "bar", 2, 100).unwrap();
    let status = service.set_script_revision(&id_text(2), &id_text(11), 400).unwrap_err();
    assert_eq!(status.kind, ErrorKind::InvalidArgument);
    assert_eq!(
        status.message,
        format!("Script ({}) doesn't own the revision ({})", id_text(2), id_text(11))
    );
    let script = service.query_script(&ScriptQuery::Id(id_text(2))).unwrap();
    assert_eq!(script.current_revision_id, None);
}

#[test]
fn an_own_revision_can_be_set() {
    let mut service = service_with_three_revisions();
    let answer = service.set_script_revision(&id_text(1), &id_text(12), 400).unwrap();
    assert_eq!(answer.script_id, id_text(1));
    assert_eq!(answer.revision_id, Some(id_text(12)));
    let script = service.query_script(&ScriptQuery::Id(id_text(1))).unwrap();
    assert_eq!(script.current_revision_id, Some(id_text(12)));
    assert_eq!(script.last_updated, 400);
}

#[test]
fn setting_needs_script_and_revision() {
    let mut service = service_with_three_revisions();
    assert_eq!(
        service.set_script_revision(&id_text(9), &id_text(12), 400).unwrap_err().kind,
        ErrorKind::NotFound
    );
    assert_eq!(
        service.set_script_revision(&id_text(1), &id_text(99), 400).unwrap_err().kind,
        ErrorKind::NotFound
    );
    assert_eq!(
        service.set_script_revision("x", &id_text(12), 400).unwrap_err().kind,
        ErrorKind::InvalidArgument
    );
    assert_eq!(
        service.set_script_revision(&id_text(1), "y", 400).unwrap_err().kind,
        ErrorKind::InvalidArgument
    );
}

#[test]
fn revisions_are_listed_newest_first() {
    let service = service_with_three_revisions();
    let page = service.list_revisions(Some(&id_text(1)), 0, 2).unwrap();
    assert_eq!(page.page, 0);
    assert_eq!(page.total_pages, 2);
    let ids: Vec<String> = page.revisions.iter().map(|r| r.id.clone()).collect();
    assert_eq!(ids, vec![id_text(13), id_text(12)]);
    let page = service.list_revisions(Some(&id_text(1)), 1, 2).unwrap();
    let ids: Vec<String> = page.revisions.iter().map(|r| r.id.clone()).collect();
    assert_eq!(ids, vec![id_text(11)]);
    let page = service.list_revisions(Some(&id_text(1)), 2, 2).unwrap();
    assert!(page.revisions.is_empty());
    assert_eq!(page.total_pages, 2);
}

#[test]
fn revisions_of_all_scripts_are_listed_without_a_script() {
    let mut service = service_with_three_revisions();
    service.create_script(&id_text(PROJECT), "bar", 2, 100).unwrap();
    service.create_revision(&id_text(2), &config(2), &main_bundle(), 21, 202).unwrap();
    let all = service.list_revisions(None, 0, 10).unwrap();
    let ids: Vec<String> = all.revisions.iter().map(|r| r.id.clone()).collect();
    assert_eq!(ids, vec![id_text(13), id_text(21), id_text(12), id_text(11)]);
    assert_eq!(all.total_pages, 1);
    let own = service.list_revisions(Some(&id_text(2)), 0, 10).unwrap();
    assert_eq!(own.revisions.len(), 1);
    assert!(own.revisions.iter().all(|r| r.bundle.is_none()));
}

#[test]
fn a_negative_page_is_an_invalid_argument() {
    let service = service_with_three_revisions();
    let status = service.list_revisions(None, -1, 10).unwrap_err();
    assert_eq!(status.kind, ErrorKind::InvalidArgument);
    assert_eq!(status.message, "invalid page number provided!");
    let status = service.list_scripts(-1, 10).unwrap_err();
    assert_eq!(status.kind, ErrorKind::InvalidArgument);
    assert_eq!(status.message, "invalid page number provided!");
}

#[test]
fn a_page_of_size_zero_is_empty_and_counts_no_pages() {
    let service = service_with_three_revisions();
    let page = service.list_revisions(None, 0, 0).unwrap();
    assert!(page.revisions.is_empty());
    assert_eq!(page.total_pages, 0);
    let page = service.list_scripts(0, 0).unwrap();
    assert!(page.scripts.is_empty());
    assert_eq!(page.total_pages, 0);
}

#[test]
fn a_negative_page_size_is_refused() {
    let service = service_with_three_revisions();
    assert_eq!(service.list_revisions(None, 0, -1).unwrap_err().kind, ErrorKind::Internal);
    assert_eq!(service.list_scripts(0, -1).unwrap_err().kind, ErrorKind::Internal);
}

#[test]
fn listing_revisions_of_a_bad_identifier_is_refused() {
    let service = service_with_three_revisions();
    assert_eq!(
        service.list_revisions(Some("one"), 0, 10).unwrap_err().kind,
        ErrorKind::InvalidArgument
    );
}

#[test]
fn scripts_are_listed_by_their_last_change() {
    let mut service = ScriptService::new();
    service.create_script(&id_text(PROJECT), "a", 1, 100).unwrap();
    service.create_script(&id_text(PROJECT), "b", 2, 300).unwrap();
    service.create_script(&id_text(PROJECT), "c", 3, 200).unwrap();
    service.create_script(&id_text(PROJECT), "d", 4, 300).unwrap();
    let page = service.list_scripts(0, 3).unwrap();
    let labels: Vec<String> = page.scripts.iter().map(|s| s.public_identifier.clone()).collect();
    assert_eq!(labels, vec!["b", "d", "c"]);
    assert_eq!(page.total_pages, 2);
    let page = service.list_scripts(1, 3).unwrap();
    let labels: Vec<String> = page.scripts.iter().map(|s| s.public_identifier.clone()).collect();
    assert_eq!(labels, vec!["a"]);
    service.create_revision(&id_text(1), &config(1), &main_bundle(), 10, 900).unwrap();
    let page = service.list_scripts(0, 1).unwrap();
    assert_eq!(page.scripts[0].public_identifier, "a");
    assert_eq!(page.total_pages, 4);
}

#[test]
fn deleting_a_script_takes_its_revisions_along() {
    let mut service = service_with_three_revisions();
    service.create_script(&id_text(PROJECT), "bar", 2, 100).unwrap();
    service.create_revision(&id_text(2), &config(2), &main_bundle(), 21, 202).unwrap();
    service.delete_script(&id_text(1)).unwrap();
    assert_eq!(service.script_count(), 1);
    assert_eq!(service.revision_count(), 1);
    assert_eq!(service.get_revision(&id_text(11), false).unwrap_err().kind, ErrorKind::NotFound);
    assert!(service.get_revision(&id_text(21), true).is_ok());
    let status = service.delete_script(&id_text(1)).unwrap_err();
    assert_eq!(status.kind, ErrorKind::NotFound);
    assert_eq!(status.message, "Script was not found.");
    assert_eq!(service.delete_script("x").unwrap_err().kind, ErrorKind::InvalidArgument);
}

#[test]
fn deleting_a_project_takes_its_scripts_along() {
    let mut service = service_with_three_revisions();
    service.create_script(&id_text(OTHER_PROJECT), "bar", 2, 100).unwrap();
    service.create_revision(&id_text(2), &config(2), &main_bundle(), 21, 202).unwrap();
    service.create_script(&id_text(PROJECT), "baz", 3, 100).unwrap();
    service.delete_project(&id_text(PROJECT)).unwrap();
    assert_eq!(service.script_count(), 1);
    assert_eq!(service.revision_count(), 1);
    let left = service.query_script(&ScriptQuery::PublicName("bar".to_string())).unwrap();
    assert_eq!(left.current_revision_id, Some(id_text(21)));
    service.delete_project(&id_text(PROJECT)).unwrap();
    assert_eq!(service.script_count(), 1);
    assert_eq!(service.delete_project("p").unwrap_err().kind, ErrorKind::InvalidArgument);
}

#[test]
fn the_current_revision_always_belongs_to_its_script() {
    let mut service = service_with_three_revisions();
    service.create_script(&id_text(PROJECT), "bar", 2, 100).unwrap();
    service.create_revision(&id_text(2), &config(2), &main_bundle(), 21, 202).unwrap();
    service.delete_revision(&id_text(13), 301).unwrap();
    service.set_script_revision(&id_text(1), &id_text(12), 302).unwrap();
    service.delete_revision(&id_text(12), 303).unwrap();
    for id in [1u128, 2] {
        let script = service.query_script(&ScriptQuery::Id(id_text(id))).unwrap();
        let current = script.current_revision_id.expect("a revision is left");
        let revision = service.get_revision(&current, false).unwrap();
        assert_eq!(revision.script_id, script.id);
    }
}
