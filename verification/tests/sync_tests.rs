use git2::Repository;
use tempfile::TempDir;

use itch::sync::{
    classify_conflict, eq_bytes, evaluate_step, resolution_action, try_sync_branch, Conflict,
    ResolutionChoice, ResolutionMap, SideContent, StagingAction, SyncDetails,
};

fn init_repo() -> (TempDir, Repository) {
    let dir = tempfile::tempdir().unwrap();
    let repo = git2::Repository::init(dir.path()).unwrap();
    let mut config = repo.config().unwrap();
    config.set_str("user.name", "tester").unwrap();
    config.set_str("user.email", "tester@example.com").unwrap();
    (dir, repo)
}

/// Writes a commit whose tree is the parent's tree with `files` upserted,
/// advancing `refname` (creating it at need) and returning the commit id.
fn commit_files(
    repo: &Repository,
    refname: &str,
    files: &[(&str, &str)],
    parent: Option<git2::Oid>,
    message: &str,
) -> git2::Oid {
    let parent_commit = parent.map(|id| repo.find_commit(id).unwrap());
    let base_tree = parent_commit.as_ref().map(|c| c.tree().unwrap());
    let mut builder = repo.treebuilder(base_tree.as_ref()).unwrap();
    for (path, content) in files {
        let blob = repo.blob(content.as_bytes()).unwrap();
        builder.insert(path, blob, 0o100644).unwrap();
    }
    let tree = repo.find_tree(builder.write().unwrap()).unwrap();
    let sig = git2::Signature::now("tester", "tester@example.com").unwrap();
    let parents: Vec<&git2::Commit> = parent_commit.iter().collect();
    repo.commit(Some(refname), &sig, &sig, message, &tree, &parents)
        .unwrap()
}

fn branch_blob_text(repo: &Repository, branch: &str, path: &str) -> String {
    let commit = repo
        .find_branch(branch, git2::BranchType::Local)
        .unwrap()
        .into_reference()
        .peel_to_commit()
        .unwrap();
    let entry = commit.tree().unwrap().get_path(std::path::Path::new(path)).unwrap();
    let blob = repo.find_blob(entry.id()).unwrap();
    String::from_utf8_lossy(blob.content()).into_owned()
}

fn side(binary: bool, data: &[u8]) -> SideContent {
    SideContent {
        binary,
        data: data.to_vec(),
    }
}

#[test]
fn classify_both_absent_is_fatal() {
    let res = classify_conflict("p".to_owned(), None, None, None);
    assert!(matches!(res, Err(itch::error::Fail::MissingEntry)));
}

#[test]
fn classify_branch_deletion() {
    let our = side(false, b"kept\n");
    let res = classify_conflict("p".to_owned(), None, Some(&our), None).unwrap();
    match res {
        Some(Conflict::BranchDeletion(p)) => assert_eq!(p, "p"),
        _ => panic!("expected a branch deletion"),
    }
}

#[test]
fn classify_main_deletion() {
    let their = side(false, b"kept\n");
    let res = classify_conflict("p".to_owned(), None, None, Some(&their)).unwrap();
    match res {
        Some(Conflict::MainDeletion(p)) => assert_eq!(p, "p"),
        _ => panic!("expected a main deletion"),
    }
}

#[test]
fn classify_identical_is_no_conflict() {
    let our = side(false, b"same\n");
    let their = side(false, b"same\n");
    let res = classify_conflict("p".to_owned(), None, Some(&our), Some(&their)).unwrap();
    assert!(res.is_none());
}

#[test]
fn classify_binary_is_opaque() {
    let our = side(true, &[0, 1, 2]);
    let their = side(false, b"text\n");
    let res = classify_conflict("p".to_owned(), None, Some(&our), Some(&their)).unwrap();
    match res {
        Some(Conflict::OpaqueMerge(p)) => assert_eq!(p, "p"),
        _ => panic!("expected an opaque merge"),
    }
}

#[test]
fn classify_text_merge_carries_merged_content() {
    let ancestor: Vec<u8> = b"same\n".to_vec();
    let our = side(false, b"same\nupstream\n");
    let their = side(false, b"same\nbranch\n");
    let res = classify_conflict("p".to_owned(), Some(&ancestor), Some(&our), Some(&their)).unwrap();
    match res {
        Some(Conflict::Merge(mc)) => {
            assert_eq!(mc.path, "p");
            assert_eq!(mc.main_content, "same\nupstream\n");
            assert_eq!(mc.branch_content, "same\nbranch\n");
            assert_eq!(
                mc.merge_content,
                "same\n<<<<<<<\nupstream\n=======\nbranch\n>>>>>>>\n"
            );
        }
        _ => panic!("expected a text merge conflict"),
    }
}

#[test]
fn resolution_actions_follow_the_table() {
    assert!(matches!(
        resolution_action(&ResolutionChoice::Incoming, true, false),
        Ok(StagingAction::Delete)
    ));
    assert!(matches!(
        resolution_action(&ResolutionChoice::Incoming, false, true),
        Ok(StagingAction::SelectTheirs)
    ));
    assert!(matches!(
        resolution_action(&ResolutionChoice::Base, false, true),
        Ok(StagingAction::Delete)
    ));
    assert!(matches!(
        resolution_action(&ResolutionChoice::Base, true, false),
        Ok(StagingAction::SelectOurs)
    ));
    assert!(matches!(
        resolution_action(&ResolutionChoice::Later, true, true),
        Ok(StagingAction::MergeAndKeep)
    ));
    let manual = resolution_action(&ResolutionChoice::Manual("final\n".to_owned()), true, true);
    match manual {
        Ok(StagingAction::ReplaceWith(t)) => assert_eq!(t, "final\n"),
        _ => panic!("expected replacement text"),
    }
    assert!(matches!(
        resolution_action(&ResolutionChoice::Later, true, false),
        Err(itch::error::Fail::MissingEntry)
    ));
    assert!(matches!(
        resolution_action(&ResolutionChoice::Manual("x".to_owned()), true, false),
        Err(itch::error::Fail::MissingEntry)
    ));
}

#[test]
fn resolution_map_finds_newest_entry() {
    let mut map = ResolutionMap::new();
    assert!(map.get(&"a".to_owned()).is_none());
    map.insert("a".to_owned(), ResolutionChoice::Base);
    map.insert("b".to_owned(), ResolutionChoice::Incoming);
    map.insert("a".to_owned(), ResolutionChoice::Later);
    assert!(matches!(
        map.get(&"a".to_owned()),
        Some(ResolutionChoice::Later)
    ));
    assert!(matches!(
        map.get(&"b".to_owned()),
        Some(ResolutionChoice::Incoming)
    ));
    assert!(map.get(&"c".to_owned()).is_none());
}

#[test]
fn evaluate_step_keeps_exactly_the_undecided() {
    let mut map = ResolutionMap::new();
    map.insert("decided".to_owned(), ResolutionChoice::Incoming);
    let conflicts = vec![
        Conflict::MainDeletion("decided".to_owned()),
        Conflict::OpaqueMerge("open".to_owned()),
        Conflict::BranchDeletion("also-open".to_owned()),
    ];
    let rest = evaluate_step(conflicts, &map);
    assert_eq!(rest.len(), 2);
    assert!(matches!(&rest[0], Conflict::OpaqueMerge(p) if p == "open"));
    assert!(matches!(&rest[1], Conflict::BranchDeletion(p) if p == "also-open"));
}

#[test]
fn evaluate_step_with_full_map_leaves_nothing() {
    let mut map = ResolutionMap::new();
    map.insert("a".to_owned(), ResolutionChoice::Base);
    map.insert("b".to_owned(), ResolutionChoice::Incoming);
    let conflicts = vec![
        Conflict::MainDeletion("a".to_owned()),
        Conflict::BranchDeletion("b".to_owned()),
    ];
    let rest = evaluate_step(conflicts, &map);
    assert_eq!(rest.len(), 0);
}

#[test]
fn eq_bytes_compares_contents() {
    assert!(eq_bytes(&b"ab".to_vec(), &b"ab".to_vec()));
    assert!(!eq_bytes(&b"ab".to_vec(), &b"ac".to_vec()));
    assert!(!eq_bytes(&b"ab".to_vec(), &b"abc".to_vec()));
}

#[test]
fn sync_clean_replay_completes_and_moves_the_ref() {
    let (dir, repo) = init_repo();
    let c1 = commit_files(&repo, "HEAD", &[("a.txt", "base\n")], None, "init");
    let c1_commit = repo.find_commit(c1).unwrap();
    repo.branch("main", &c1_commit, true).unwrap();
    repo.branch("b1", &c1_commit, true).unwrap();
    commit_files(
        &repo,
        "refs/heads/b1",
        &[("b.txt", "hi\n")],
        Some(c1),
        "add b",
    );
    commit_files(
        &repo,
        "refs/heads/main",
        &[("a.txt", "base2\n")],
        Some(c1),
        "update a",
    );

    let details = try_sync_branch(&repo, &"b1".to_owned(), None).unwrap();
    assert!(matches!(details, SyncDetails::Complete));
    assert_eq!(branch_blob_text(&repo, "b1", "a.txt"), "base2\n");
    assert_eq!(branch_blob_text(&repo, "b1", "b.txt"), "hi\n");
    drop(dir);
}

#[test]
fn sync_conflict_stops_without_moving_the_ref() {
    let (dir, repo) = init_repo();
    let c1 = commit_files(&repo, "HEAD", &[("a.txt", "base\n")], None, "init");
    let c1_commit = repo.find_commit(c1).unwrap();
    repo.branch("main", &c1_commit, true).unwrap();
    repo.branch("b1", &c1_commit, true).unwrap();
    let b1_tip = commit_files(
        &repo,
        "refs/heads/b1",
        &[("a.txt", "branch\n")],
        Some(c1),
        "branch edit",
    );
    commit_files(
        &repo,
        "refs/heads/main",
        &[("a.txt", "upstream\n")],
        Some(c1),
        "main edit",
    );

    let details = try_sync_branch(&repo, &"b1".to_owned(), None).unwrap();
    match details {
        SyncDetails::Conflicted(list) => {
            assert_eq!(list.len(), 1);
            match &list[0] {
                Conflict::Merge(mc) => {
                    assert_eq!(mc.path, "a.txt");
                    assert_eq!(mc.main_content, "upstream\n");
                    assert_eq!(mc.branch_content, "branch\n");
                    assert_eq!(
                        mc.merge_content,
                        "<<<<<<<\nupstream\n=======\nbranch\n>>>>>>>\n"
                    );
                }
                _ => panic!("expected a text merge conflict"),
            }
        }
        SyncDetails::Complete => panic!("expected a conflict"),
    }
    // All-or-nothing: the branch ref still points where it did.
    let tip_now = repo
        .find_branch("b1", git2::BranchType::Local)
        .unwrap()
        .into_reference()
        .peel_to_commit()
        .unwrap()
        .id();
    assert_eq!(tip_now, b1_tip);
    drop(dir);
}

#[test]
fn sync_retry_with_full_resolutions_completes() {
    let (dir, repo) = init_repo();
    let c1 = commit_files(&repo, "HEAD", &[("a.txt", "base\n")], None, "init");
    let c1_commit = repo.find_commit(c1).unwrap();
    repo.branch("main", &c1_commit, true).unwrap();
    repo.branch("b1", &c1_commit, true).unwrap();
    commit_files(
        &repo,
        "refs/heads/b1",
        &[("a.txt", "branch\n")],
        Some(c1),
        "branch edit",
    );
    commit_files(
        &repo,
        "refs/heads/main",
        &[("a.txt", "upstream\n")],
        Some(c1),
        "main edit",
    );

    let first = try_sync_branch(&repo, &"b1".to_owned(), None).unwrap();
    let mut map = ResolutionMap::new();
    match first {
        SyncDetails::Conflicted(list) => {
            for conflict in &list {
                map.insert(conflict.path().clone(), ResolutionChoice::Incoming);
            }
        }
        SyncDetails::Complete => panic!("expected a conflict"),
    }
    let second = try_sync_branch(&repo, &"b1".to_owned(), Some(&map)).unwrap();
    assert!(matches!(second, SyncDetails::Complete));
    assert_eq!(branch_blob_text(&repo, "b1", "a.txt"), "branch\n");
    drop(dir);
}

#[test]
fn sync_partial_resolutions_surface_only_the_undecided() {
    let (dir, repo) = init_repo();
    let c1 = commit_files(
        &repo,
        "HEAD",
        &[("a.txt", "base-a\n"), ("b.txt", "base-b\n")],
        None,
        "init",
    );
    let c1_commit = repo.find_commit(c1).unwrap();
    repo.branch("main", &c1_commit, true).unwrap();
    repo.branch("b1", &c1_commit, true).unwrap();
    commit_files(
        &repo,
        "refs/heads/b1",
        &[("a.txt", "branch-a\n"), ("b.txt", "branch-b\n")],
        Some(c1),
        "branch edits",
    );
    commit_files(
        &repo,
        "refs/heads/main",
        &[("a.txt", "main-a\n"), ("b.txt", "main-b\n")],
        Some(c1),
        "main edits",
    );

    let mut map = ResolutionMap::new();
    map.insert("a.txt".to_owned(), ResolutionChoice::Base);
    let details = try_sync_branch(&repo, &"b1".to_owned(), Some(&map)).unwrap();
    match details {
        SyncDetails::Conflicted(list) => {
            assert_eq!(list.len(), 1);
            assert_eq!(list[0].path(), "b.txt");
        }
        SyncDetails::Complete => panic!("expected the undecided path to surface"),
    }
    drop(dir);
}

#[test]
fn sync_multi_commit_conflict_persists_nothing() {
    let (dir, repo) = init_repo();
    let c1 = commit_files(&repo, "HEAD", &[("a.txt", "base\n")], None, "init");
    let c1_commit = repo.find_commit(c1).unwrap();
    repo.branch("main", &c1_commit, true).unwrap();
    repo.branch("b1", &c1_commit, true).unwrap();
    let b_first = commit_files(
        &repo,
        "refs/heads/b1",
        &[("a.txt", "branch\n")],
        Some(c1),
        "conflicting edit",
    );
    let b_tip = commit_files(
        &repo,
        "refs/heads/b1",
        &[("c.txt", "later work\n")],
        Some(b_first),
        "later work",
    );
    commit_files(
        &repo,
        "refs/heads/main",
        &[("a.txt", "upstream\n")],
        Some(c1),
        "main edit",
    );

    let details = try_sync_branch(&repo, &"b1".to_owned(), None).unwrap();
    assert!(matches!(details, SyncDetails::Conflicted(_)));
    // The first replayed commit conflicted, so nothing was persisted: the
    // branch ref is exactly where it was before the attempt.
    let tip_now = repo
        .find_branch("b1", git2::BranchType::Local)
        .unwrap()
        .into_reference()
        .peel_to_commit()
        .unwrap()
        .id();
    assert_eq!(tip_now, b_tip);
    drop(dir);
}

#[test]
fn sync_later_resolution_keeps_the_marked_merge() {
    let (dir, repo) = init_repo();
    let c1 = commit_files(&repo, "HEAD", &[("a.txt", "same\n")], None, "init");
    let c1_commit = repo.find_commit(c1).unwrap();
    repo.branch("main", &c1_commit, true).unwrap();
    repo.branch("b1", &c1_commit, true).unwrap();
    commit_files(
        &repo,
        "refs/heads/b1",
        &[("a.txt", "same\nbranch\n")],
        Some(c1),
        "branch edit",
    );
    commit_files(
        &repo,
        "refs/heads/main",
        &[("a.txt", "same\nupstream\n")],
        Some(c1),
        "main edit",
    );

    let mut map = ResolutionMap::new();
    map.insert("a.txt".to_owned(), ResolutionChoice::Later);
    let details = try_sync_branch(&repo, &"b1".to_owned(), Some(&map)).unwrap();
    assert!(matches!(details, SyncDetails::Complete));
    // The merged text with markers was staged in the fixed order: the base
    // side's block first, the branch side's second — the same text a caller
    // would have been shown as merge_content.
    let text = branch_blob_text(&repo, "b1", "a.txt");
    assert_eq!(text, "same\n<<<<<<<\nupstream\n=======\nbranch\n>>>>>>>\n");
    drop(dir);
}

#[test]
fn sync_manual_resolution_substitutes_text() {
    let (dir, repo) = init_repo();
    let c1 = commit_files(&repo, "HEAD", &[("a.txt", "base\n")], None, "init");
    let c1_commit = repo.find_commit(c1).unwrap();
    repo.branch("main", &c1_commit, true).unwrap();
    repo.branch("b1", &c1_commit, true).unwrap();
    commit_files(
        &repo,
        "refs/heads/b1",
        &[("a.txt", "branch\n")],
        Some(c1),
        "branch edit",
    );
    commit_files(
        &repo,
        "refs/heads/main",
        &[("a.txt", "upstream\n")],
        Some(c1),
        "main edit",
    );

    let mut map = ResolutionMap::new();
    map.insert(
        "a.txt".to_owned(),
        ResolutionChoice::Manual("settled\n".to_owned()),
    );
    let details = try_sync_branch(&repo, &"b1".to_owned(), Some(&map)).unwrap();
    assert!(matches!(details, SyncDetails::Complete));
    assert_eq!(branch_blob_text(&repo, "b1", "a.txt"), "settled\n");
    drop(dir);
}
