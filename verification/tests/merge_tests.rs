use git2::{Oid, Repository};
use tempfile::TempDir;

use itch::diff::{get_merge_text, merge_bytes};

pub fn init_repo() -> (TempDir, Repository) {
    let dir = tempfile::tempdir().unwrap();
    let repo = git2::Repository::init(dir.path()).unwrap();
    (dir, repo)
}

fn merge_files(original: &str, upstream: &str, branch: &str) -> String {
    let (dir, repo) = init_repo();
    let original_id = repo.blob(original.as_bytes()).unwrap();
    let upstream_id = repo.blob(upstream.as_bytes()).unwrap();
    let branch_id = repo.blob(branch.as_bytes()).unwrap();
    let res = get_merge_text(&repo, &original_id, &upstream_id, &branch_id).unwrap();
    drop(dir);
    res
}

#[test]
fn equal_files() {
    let combined = merge_files("same\n", "same\n", "same\n");
    assert_eq!(&combined, "same\n");
}

#[test]
fn delete_line() {
    let combined = merge_files("same\n", "same\n", "\n");
    assert_eq!(&combined, "\n");
}

#[test]
fn add_line() {
    let combined = merge_files("a\nb\nc\n", "a\nb\nc\n", "a\nb\nc\nnew\n");
    assert_eq!(&combined, "a\nb\nc\nnew\n");
}

#[test]
fn add_line_upstream() {
    let combined = merge_files("same\n", "same\nupstream\n", "same\n");
    assert_eq!(&combined, "same\nupstream\n");
}

#[test]
fn add_line_within() {
    let combined = merge_files(
        "\
a
b
c\n",
        "\
a
b
c\n",
        "\
a
b
branch
c\n",
    );
    assert_eq!(
        &combined,
        "\
a
b
branch
c\n"
    );
}

#[test]
fn add_lines_separately() {
    let combined = merge_files(
        "\
a
b
c\n",
        "\
upstream
a
b
c\n",
        "\
a
b
branch
c\n",
    );
    assert_eq!(
        &combined,
        "\
upstream
a
b
branch
c\n"
    );
}

#[test]
fn remove_line_within() {
    let combined = merge_files(
        "\
    a
    b
    c\n",
        "\
    a
    b
    c\n",
        "\
    a
    c\n",
    );
    assert_eq!(
        &combined,
        "\
    a
    c\n"
    );
}

#[test]
fn multiple_overlapping() {
    let combined = merge_files(
        "\
a
b
c
d1
d2
d3
e
f
g\n",
        "\
a
b
f
g\n",
        "\
a
b
c2
d1
d2
d3
e2
f
g\n",
    );
    assert_eq!(
        &combined,
        "\
a
b
<<<<<<<
=======
c2
d1
d2
d3
e2
>>>>>>>
f
g\n"
    );
}

#[test]
fn basic_ignore_whitespace() {
    let original = r"
    return 1;
";
    let upstream = r"
return 2;
";
    let branch = r"
return 1;
";
    let result = r"
return 2;
";
    let combined = merge_files(original, upstream, branch);
    assert_eq!(&combined, result);
}

#[test]
fn add_conflicting_line() {
    let combined = merge_files("same\n", "same\nupstream\n", "same\nbranch\n");
    assert_eq!(
        &combined,
        "same\n<<<<<<<\nupstream\n=======\nbranch\n>>>>>>>\n"
    );
}

#[test]
fn no_original() {
    let (dir, repo) = init_repo();
    let original_id = Oid::zero();
    let upstream_id = repo.blob("upstream content\n".as_bytes()).unwrap();
    let branch_id = repo.blob("branch content\n".as_bytes()).unwrap();
    let combined = get_merge_text(&repo, &original_id, &upstream_id, &branch_id).unwrap();
    assert_eq!(
        &combined,
        "<<<<<<<\nupstream content\n=======\nbranch content\n>>>>>>>\n"
    );
    drop(dir);
}

#[test]
fn no_branch() {
    let (dir, repo) = init_repo();
    let original_id = repo.blob("original content\n".as_bytes()).unwrap();
    let upstream_id = repo.blob("upstream content\n".as_bytes()).unwrap();
    let branch_id = Oid::zero();
    let combined = get_merge_text(&repo, &original_id, &upstream_id, &branch_id).unwrap();
    assert_eq!(&combined, "<<<<<<<\nupstream content\n=======\n>>>>>>>\n");
    drop(dir);
}

#[test]
fn no_upstream() {
    let (dir, repo) = init_repo();
    let original_id = repo.blob("original content\n".as_bytes()).unwrap();
    let upstream_id = Oid::zero();
    let branch_id = repo.blob("branch content\n".as_bytes()).unwrap();
    let combined = get_merge_text(&repo, &original_id, &upstream_id, &branch_id).unwrap();
    assert_eq!(&combined, "<<<<<<<\n=======\nbranch content\n>>>>>>>\n");
    drop(dir);
}

#[test]
fn delete_whole_file() {
    let combined = merge_files("same\n", "same\n", "");
    assert_eq!(&combined, "");
}

#[test]
fn merge_bytes_treats_absent_original_as_empty() {
    let upstream: Vec<u8> = b"up\n".to_vec();
    let branch: Vec<u8> = b"br\n".to_vec();
    let merged = merge_bytes(None, &upstream, &branch).unwrap();
    assert_eq!(merged, b"<<<<<<<\nup\n=======\nbr\n>>>>>>>\n".to_vec());
}

#[test]
fn merge_bytes_needs_no_repository() {
    let original: Vec<u8> = b"a\nb\n".to_vec();
    let branch: Vec<u8> = b"a\nb\nc\n".to_vec();
    let merged = merge_bytes(Some(&original), &original, &branch).unwrap();
    assert_eq!(merged, b"a\nb\nc\n".to_vec());
    let same = merge_bytes(Some(&original), &original, &original).unwrap();
    assert_eq!(same, original);
}

#[test]
fn binary_blob_is_refused() {
    let (dir, repo) = init_repo();
    let original_id = repo.blob(b"text\n").unwrap();
    let binary_id = repo.blob(&[0u8, 159, 146, 150, 0, 1, 2]).unwrap();
    let branch_id = repo.blob(b"text2\n").unwrap();
    let res = get_merge_text(&repo, &original_id, &binary_id, &branch_id);
    assert!(matches!(res, Err(itch::error::Fail::BinaryContent)));
    drop(dir);
}
