//! The trusted boundary to the version-control backend. Each item here
//! declares an outside type or wraps one backend operation; everything the
//! engine concludes from these calls rests on the contracts below, which state
//! no more than the backend's own documentation.

use vstd::prelude::*;

use crate::lines::sp_ws_equal;
use crate::sync::{StagedConflict, StepKind};

verus! {

#[verifier::external_type_specification]
#[verifier::external_body]
pub struct ExRepository(git2::Repository);

#[verifier::external_type_specification]
#[verifier::external_body]
pub struct ExOid(git2::Oid);

#[verifier::external_type_specification]
#[verifier::external_body]
pub struct ExGitError(git2::Error);

/// Whether an id is the all-zero id: a function of the id value alone.
pub uninterp spec fn is_zero_of(oid: git2::Oid) -> bool;

/// Relies on git2::Oid::is_zero: whether the id is all zeros. Callers treat
/// a zero id as absent content, as the backend does.
pub assume_specification[ git2::Oid::is_zero ](oid: &git2::Oid) -> (r: bool)
    ensures
        r == is_zero_of(*oid),
;

/// The hunks of the backend's two-way line diff between two byte contents,
/// computed with zero context lines and whitespace-insensitive line
/// comparison. Each element is `(old_start, old_line_count, new_start,
/// new_line_count)` in the diff's one-based convention. For fixed options the
/// result is a function of the two contents alone.
pub uninterp spec fn diff_of(old: Seq<u8>, new: Seq<u8>) -> Seq<(u32, u32, u32, u32)>;

/// Relies on git2::Patch::from_buffers with context_lines(0) and
/// ignore_whitespace(true), reading the hunks back through Patch::num_hunks
/// and Patch::hunk: each element is a hunk's one-based start line and line
/// count on both sides. The call touches no repository state. Identical
/// contents diff to nothing; so do contents whose lines differ only in
/// whitespace, since DiffOptions::ignore_whitespace ignores whitespace when
/// comparing lines. The backend's whitespace test is the C isspace, which a
/// process locale could in principle enlarge beyond the six byte values
/// named here; both clauses stay true under any enlargement, and the named
/// result is exact per process.
#[verifier::external_body]
pub fn diff_hunks_raw(old: &Vec<u8>, new: &Vec<u8>) -> (r: Result<
    Vec<(u32, u32, u32, u32)>,
    git2::Error,
>)
    ensures
        r matches Ok(v) ==> v@ == diff_of(old@, new@),
        r matches Ok(v) ==> (old@ == new@ ==> v@.len() == 0),
        r matches Ok(v) ==> (sp_ws_equal(old@, new@) ==> v@.len() == 0),
{
    let mut opts = git2::DiffOptions::new();
    opts.context_lines(0);
    opts.ignore_whitespace(true);
    let patch = git2::Patch::from_buffers(old, None, new, None, Some(&mut opts))?;
    let mut res = Vec::new();
    for i in 0..patch.num_hunks() {
        let (h, _) = patch.hunk(i)?;
        res.push((h.old_start(), h.old_lines(), h.new_start(), h.new_lines()));
    }
    Ok(res)
}

/// Relies on git2::Repository::find_blob, git2::Blob::is_binary and
/// git2::Blob::content: returns the backend's binary classification and the
/// raw bytes of the blob behind `id`. The result depends on the repository's
/// object store, so nothing more is stated of it.
#[verifier::external_body]
pub fn blob_content(repo: &git2::Repository, id: &git2::Oid) -> (r: Result<
    (bool, Vec<u8>),
    git2::Error,
>) {
    let blob = repo.find_blob(*id)?;
    Ok((blob.is_binary(), blob.content().to_vec()))
}

/// Relies on git2::Repository::blob: writes the bytes to the object store
/// and returns their id. The id is opaque here, so nothing is stated of it.
#[verifier::external_body]
pub fn write_blob(repo: &git2::Repository, data: &Vec<u8>) -> (r: Result<git2::Oid, git2::Error>) {
    repo.blob(data)
}

/// The characters that lossy UTF-8 decoding yields for a byte sequence: a
/// function of the bytes alone.
pub uninterp spec fn utf8_lossy_of(bytes: Seq<u8>) -> Seq<char>;

/// Relies on String::from_utf8_lossy: decodes the bytes as UTF-8, replacing
/// invalid sequences; empty input decodes to the empty string.
#[verifier::external_body]
pub fn bytes_to_text(bytes: &Vec<u8>) -> (r: String)
    ensures
        r@ == utf8_lossy_of(bytes@),
        bytes@.len() == 0 ==> r@.len() == 0,
{
    String::from_utf8_lossy(bytes).into_owned()
}

#[verifier::external_type_specification]
#[verifier::external_body]
pub struct ExRebase<'a>(git2::Rebase<'a>);

#[verifier::external_type_specification]
#[verifier::external_body]
pub struct ExRebaseOperation<'a>(git2::RebaseOperation<'a>);

#[verifier::external_type_specification]
#[verifier::external_body]
pub struct ExIndex(git2::Index);

#[verifier::external_type_specification]
#[verifier::external_body]
pub struct ExIndexEntry(git2::IndexEntry);

/// Relies on git2::Repository::find_branch, reference_to_annotated_commit
/// and Repository::rebase with in-memory options: begins a commit-by-commit
/// replay of `branch` onto `base`, returning the rebase handle and the tip
/// id of `base`.
#[verifier::external_body]
pub fn rebase_onto<'a>(repo: &'a git2::Repository, branch: &str, base: &str) -> (r: Result<
    (git2::Rebase<'a>, git2::Oid),
    git2::Error,
>) {
    let branch_ref = repo.find_branch(branch, git2::BranchType::Local)?.into_reference();
    let base_ref = repo.find_branch(base, git2::BranchType::Local)?.into_reference();
    let upstream_id = repo.reference_to_annotated_commit(&base_ref)?;
    let branch_id = repo.reference_to_annotated_commit(&branch_ref)?;
    let mut options = git2::RebaseOptions::new();
    options.inmemory(true);
    let rebase = repo.rebase(Some(&branch_id), Some(&upstream_id), None, Some(&mut options))?;
    Ok((rebase, upstream_id.id()))
}

/// Relies on git2::Rebase::next and RebaseOperation::kind: advances the
/// replay one commit and tells a pick step apart from any other kind. The
/// walk ends cleanly (Ok(None)) only when no step is left; a backend error
/// for a step comes back as the error it is.
#[verifier::external_body]
pub fn rebase_next_step(rb: &mut git2::Rebase<'_>) -> (r: Result<Option<StepKind>, git2::Error>) {
    match rb.next() {
        Some(Ok(op)) => match op.kind() {
            Some(git2::RebaseOperationType::Pick) => Ok(Some(StepKind::Pick)),
            _ => Ok(Some(StepKind::Other)),
        },
        Some(Err(e)) => Err(e),
        None => Ok(None),
    }
}

/// Relies on git2::Rebase::inmemory_index: the staging state of the current
/// replay step.
#[verifier::external_body]
pub fn rebase_index(rb: &mut git2::Rebase<'_>) -> (r: Result<git2::Index, git2::Error>) {
    rb.inmemory_index()
}

/// Relies on git2::Index::has_conflicts and Index::conflicts: the per-path
/// conflict entries of the staging state, each side optional.
#[verifier::external_body]
pub fn index_conflicts(index: &git2::Index) -> (r: Result<Vec<StagedConflict>, git2::Error>) {
    let mut res: Vec<StagedConflict> = Vec::new();
    if !index.has_conflicts() {
        return Ok(res);
    }
    for c in index.conflicts()? {
        let c = c?;
        res.push(StagedConflict { ancestor: c.ancestor, our: c.our, their: c.their });
    }
    Ok(res)
}

/// The path bytes an index entry carries: a function of the entry value
/// alone.
pub uninterp spec fn entry_path_of(e: git2::IndexEntry) -> Seq<u8>;

/// The flag bits an index entry carries: a function of the entry value
/// alone.
pub uninterp spec fn entry_flags_of(e: git2::IndexEntry) -> u16;

/// What the staging state holds, one slot per path: the template entry the
/// slot was last filled from, the id override it was given, and the flags it
/// was stored with. Each add records its description at the entry's own
/// path; each remove clears the path, conflict stages included.
pub uninterp spec fn index_model(i: git2::Index) -> Map<
    Seq<u8>,
    (git2::IndexEntry, Option<git2::Oid>, u16),
>;

/// Relies on the path field of git2::IndexEntry, decoded the way the engine
/// reports paths to callers.
#[verifier::external_body]
pub fn entry_path(e: &git2::IndexEntry) -> (r: String)
    ensures
        r@ == utf8_lossy_of(entry_path_of(*e)),
{
    String::from_utf8_lossy(&e.path).into_owned()
}

/// Relies on the path field of git2::IndexEntry: the raw path bytes, for
/// staging mutations that must target exactly the entry's own path.
#[verifier::external_body]
pub fn entry_path_bytes(e: &git2::IndexEntry) -> (r: Vec<u8>)
    ensures
        r@ == entry_path_of(*e),
{
    e.path.clone()
}

/// Relies on the id field of git2::IndexEntry.
#[verifier::external_body]
pub fn entry_id(e: &git2::IndexEntry) -> (r: git2::Oid) {
    e.id
}

/// Relies on the flags field of git2::IndexEntry.
#[verifier::external_body]
pub fn entry_flags(e: &git2::IndexEntry) -> (r: u16)
    ensures
        r == entry_flags_of(*e),
{
    e.flags
}

/// Relies on git2::Index::remove_path: removes the entries at `path` from
/// the staging state, conflict stages included. The raw path bytes are
/// decoded strictly; a path that is not UTF-8 text comes back as an error
/// rather than targeting other bytes.
#[verifier::external_body]
pub fn index_remove_path(index: &mut git2::Index, path: &Vec<u8>) -> (r: Result<(), git2::Error>)
    ensures
        r matches Ok(u) ==> index_model(*final(index)) == index_model(*old(index)).remove(path@),
{
    match std::str::from_utf8(path) {
        Ok(s) => index.remove_path(std::path::Path::new(s)),
        Err(_) => Err(git2::Error::from_str("non-text path in staging state")),
    }
}

/// Relies on git2::Index::add: stages an entry copied field for field from
/// `template`, with the id overridden when one is given and the flags set to
/// `flags`; the slot at the template's own path then holds exactly that
/// description.
#[verifier::external_body]
pub fn index_add_from(
    index: &mut git2::Index,
    template: &git2::IndexEntry,
    id: Option<&git2::Oid>,
    flags: u16,
) -> (r: Result<(), git2::Error>)
    ensures
        r matches Ok(u) ==> index_model(*final(index)) == index_model(*old(index)).insert(
            entry_path_of(*template),
            (
                *template,
                match id {
                    Some(i) => Some(*i),
                    None => None,
                },
                flags,
            ),
        ),
{
    let mut entry = git2::IndexEntry {
        ctime: template.ctime, mtime: template.mtime, dev: template.dev, ino: template.ino,
        mode: template.mode, uid: template.uid, gid: template.gid,
        file_size: template.file_size, id: template.id, flags,
        flags_extended: template.flags_extended, path: template.path.clone(),
    };
    if let Some(i) = id {
        entry.id = *i;
    }
    index.add(&entry)
}

/// Relies on git2::Rebase::commit with the repository's default signature:
/// commits the current step; a step whose change is already upstream yields
/// no new commit.
#[verifier::external_body]
pub fn rebase_commit_step(rb: &mut git2::Rebase<'_>, repo: &git2::Repository) -> (r: Result<
    Option<git2::Oid>,
    git2::Error,
>) {
    match rb.commit(None, &repo.signature()?, None) {
        Ok(id) => Ok(Some(id)),
        Err(e) => {
            if e.code() == git2::ErrorCode::Applied {
                Ok(None)
            } else {
                Err(e)
            }
        },
    }
}

/// Relies on git2::Rebase::finish.
#[verifier::external_body]
pub fn rebase_finish(rb: &mut git2::Rebase<'_>, repo: &git2::Repository) -> (r: Result<
    (),
    git2::Error,
>) {
    rb.finish(Some(&repo.signature()?))
}

/// Relies on git2::Branch::is_head after Repository::find_branch.
#[verifier::external_body]
pub fn branch_is_head(repo: &git2::Repository, name: &str) -> (r: Result<bool, git2::Error>) {
    Ok(repo.find_branch(name, git2::BranchType::Local)?.is_head())
}

/// Relies on git2::Repository::reset with ResetType::Hard: moves the
/// checked-out branch, index and working tree to the commit.
#[verifier::external_body]
pub fn reset_hard_to(repo: &git2::Repository, id: &git2::Oid) -> (r: Result<(), git2::Error>) {
    repo.reset(repo.find_commit(*id)?.as_object(), git2::ResetType::Hard, None)
}

/// Relies on git2::Repository::branch with force: points the branch ref at
/// the commit.
#[verifier::external_body]
pub fn set_branch_to(repo: &git2::Repository, name: &str, id: &git2::Oid) -> (r: Result<
    (),
    git2::Error,
>) {
    repo.branch(name, &repo.find_commit(*id)?, true)?;
    Ok(())
}

} // verus!
