use submission_grader::archive::ArchiveType;
use submission_grader::cleanup::{
    macosx_removals, top_level_cleanup, Cleanup, EntryKind, TreeEntry,
};
use submission_grader::error::GraderError;
use submission_grader::reorganize::{deliverable_dir, plan_reorganization, plan_student};

fn names(v: &[&str]) -> Vec<String> {
    v.iter().map(|s| s.to_string()).collect()
}

fn entry(path: &str, is_dir: bool) -> TreeEntry {
    TreeEntry {
        components: path.split('/').map(|s| s.to_string()).collect(),
        is_dir,
    }
}

#[test]
fn deliverable_dir_is_under_deliverables() {
    assert_eq!(deliverable_dir("alice"), "deliverables/alice");
}

#[test]
fn plan_student_for_archive_and_other_file() {
    let p = plan_student("oblig_alice_v1.zip").unwrap();
    assert_eq!(p.id, "alice");
    assert_eq!(p.target_dir, "deliverables/alice");
    assert_eq!(p.archive, Some(ArchiveType::Zip));
    let q = plan_student("oblig_bob_notes.txt").unwrap();
    assert_eq!(q.id, "bob");
    assert_eq!(q.archive, None);
}

#[test]
fn plan_keeps_snapshot_order() {
    let plans =
        plan_reorganization(&names(&["x_carol_1.rar", "x_alice_1.zip", "x_bob_1.tar"])).unwrap();
    let ids: Vec<&str> = plans.iter().map(|p| p.id.as_str()).collect();
    assert_eq!(ids, vec!["carol", "alice", "bob"]);
    assert_eq!(plans[0].archive, Some(ArchiveType::Rar));
    assert_eq!(plans[2].archive, Some(ArchiveType::Tar));
}

#[test]
fn plan_of_two_student_archives_named_without_prefix() {
    // With the second `_`-field rule, `alice_report.zip` yields `report.zip`.
    let plans = plan_reorganization(&names(&["alice_report.zip", "bob_report.zip"])).unwrap();
    assert_eq!(plans.len(), 2);
    assert_eq!(plans[0].id, "report.zip");
    assert_eq!(plans[1].id, "report.zip");
    assert_eq!(plans[0].target_dir, "deliverables/report.zip");
}

#[test]
fn plan_with_prefixed_names_gives_one_directory_each() {
    let plans =
        plan_reorganization(&names(&["sub_alice_report.zip", "sub_bob_report.zip"])).unwrap();
    assert_eq!(plans[0].target_dir, "deliverables/alice");
    assert_eq!(plans[1].target_dir, "deliverables/bob");
}

#[test]
fn plan_fails_before_work_on_empty_identifier() {
    assert_eq!(
        plan_reorganization(&names(&["x_alice_1.zip", "!!!.?"])).err(),
        Some(GraderError::EmptyIdentifier)
    );
}

#[test]
fn plan_of_empty_snapshot_is_empty() {
    assert_eq!(plan_reorganization(&Vec::new()).unwrap().len(), 0);
}

#[test]
fn cleanup_keeps_only_deliverables() {
    assert_eq!(top_level_cleanup("deliverables", EntryKind::Directory), Cleanup::Keep);
    assert_eq!(top_level_cleanup("__MACOSX", EntryKind::Directory), Cleanup::RemoveTree);
    assert_eq!(top_level_cleanup("x_alice_1.zip", EntryKind::File), Cleanup::RemoveFile);
    assert_eq!(top_level_cleanup("deliverables", EntryKind::File), Cleanup::RemoveFile);
    assert_eq!(top_level_cleanup("link", EntryKind::Other), Cleanup::Keep);
}

#[test]
fn macosx_directories_are_removed_and_others_kept() {
    let entries = vec![
        entry("a", true),
        entry("a/__MACOSX", true),
        entry("a/__MACOSX/x", false),
        entry("a/b", true),
        entry("a/b/__MACOSX", true),
        entry("a/b/__MACOSX/y", false),
        entry("a/b/index.html", false),
        entry("a/keep.css", false),
    ];
    assert_eq!(macosx_removals(&entries), vec![1, 4]);
}

#[test]
fn macosx_inside_macosx_is_not_listed_twice() {
    let entries = vec![
        entry("__MACOSX", true),
        entry("__MACOSX/__MACOSX", true),
        entry("__MACOSX", false),
        entry("d/__MACOSX", false),
    ];
    assert_eq!(macosx_removals(&entries), vec![0]);
}

#[test]
fn macosx_removals_of_empty_listing() {
    assert_eq!(macosx_removals(&Vec::new()), Vec::<usize>::new());
}

#[test]
fn feedback_stub_names_student() {
    assert_eq!(
        submission_grader::reorganize::feedback_stub("alice"),
        "Tilbakemelding til alice (__%)"
    );
}
