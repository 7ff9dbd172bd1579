//! The conflict vocabulary and the decision core of the sync state machine:
//! classifying one file's three-way entry state into a `Conflict`, choosing
//! the staging action for a supplied resolution, and deciding from a step's
//! conflicts and the caller's resolution map whether a replay continues or
//! stops. The engine never blocks on user input: an unresolved conflict is a
//! first-class terminal value, not an error.

use vstd::prelude::*;

use crate::diff::{merge_bytes, sp_merged, sp_orig};
use crate::error::Fail;
use crate::gitio::{
    blob_content, branch_is_head, bytes_to_text, entry_flags, entry_id, entry_path,
    entry_flags_of, entry_path_bytes, entry_path_of, index_add_from, index_conflicts, index_model,
    index_remove_path, rebase_commit_step, rebase_finish,
    rebase_index, rebase_next_step, rebase_onto, reset_hard_to, set_branch_to, utf8_lossy_of,
    write_blob,
};
use vstd::string::StrSliceExecFns;

verus! {

/// The caller's decision for one conflicted path. Applying `Incoming` or
/// `Base` to a deletion conflict with no entry on that side means "delete
/// the file"; `Later` keeps the merged text with markers for manual
/// resolution; `Manual` substitutes caller-supplied final content.
#[derive(Clone, Debug)]
pub enum ResolutionChoice {
    Incoming,
    Base,
    Later,
    Manual(String),
}

/// A content conflict on a text file: both sides' contents and the three-way
/// merged text, with markers where regions stayed unresolved.
pub struct MergeConflict {
    pub path: String,
    pub main_content: String,
    pub branch_content: String,
    pub merge_content: String,
}

/// One file's irreconcilable three-way state, surfaced to the caller.
pub enum Conflict {
    /// Deleted on the base side, still present on the branch side.
    MainDeletion(String),
    /// Deleted on the branch side, still present on the base side.
    BranchDeletion(String),
    /// Both sides hold differing text content.
    Merge(MergeConflict),
    /// Both sides changed a binary file; no textual merge is possible.
    OpaqueMerge(String),
}

/// Terminal result of one sync attempt: fully replayed, or stopped with the
/// outstanding conflicts.
pub enum SyncDetails {
    Complete,
    Conflicted(Vec<Conflict>),
}

/// The path a conflict is keyed by, exactly as the engine emitted it.
pub open spec fn sp_conflict_path(c: Conflict) -> Seq<char> {
    match c {
        Conflict::MainDeletion(p) => p@,
        Conflict::BranchDeletion(p) => p@,
        Conflict::Merge(mc) => mc.path@,
        Conflict::OpaqueMerge(p) => p@,
    }
}

impl Conflict {
    /// The path this conflict is keyed by.
    pub fn path(&self) -> (r: &String)
        ensures
            r@ == sp_conflict_path(*self),
    {
        match self {
            Conflict::MainDeletion(p) => p,
            Conflict::BranchDeletion(p) => p,
            Conflict::Merge(mc) => &mc.path,
            Conflict::OpaqueMerge(p) => p,
        }
    }
}

/// First-match lookup in a path-keyed association list.
pub open spec fn sp_lookup(entries: Seq<(String, ResolutionChoice)>, path: Seq<char>) -> Option<
    ResolutionChoice,
>
    decreases entries.len(),
{
    if entries.len() == 0 {
        None
    } else if entries[0].0@ == path {
        Some(entries[0].1)
    } else {
        sp_lookup(entries.drop_first(), path)
    }
}

/// Caller-owned mapping from file path to `ResolutionChoice`, kept as an
/// association list so its lookup is verified. It stands in for a hash map
/// keyed by path: a later `insert` for the same path shadows the earlier
/// entry, as a map's insert would, and lookup finds the newest.
pub struct ResolutionMap {
    pub entries: Vec<(String, ResolutionChoice)>,
}

impl ResolutionMap {
    pub open spec fn sp_get(&self, path: Seq<char>) -> Option<ResolutionChoice> {
        sp_lookup(self.entries@, path)
    }

    pub fn new() -> (r: Self)
        ensures
            r.entries@.len() == 0,
            forall|p: Seq<char>| r.sp_get(p) is None,
    {
        ResolutionMap { entries: Vec::new() }
    }

    /// Records a decision for a path, shadowing any earlier decision for it.
    pub fn insert(&mut self, path: String, choice: ResolutionChoice)
        ensures
            final(self).sp_get(path@) == Some(choice),
            forall|p: Seq<char>| p != path@ ==> final(self).sp_get(p) == old(self).sp_get(p),
    {
        self.entries.insert(0, (path, choice));
        proof {
            assert(self.entries@.drop_first() =~= old(self).entries@);
        }
    }

    /// The caller's decision for a path, if one was supplied.
    pub fn get(&self, path: &String) -> (r: Option<&ResolutionChoice>)
        ensures
            r is Some <==> self.sp_get(path@) is Some,
            r matches Some(c) ==> Some(*c) == self.sp_get(path@),
    {
        let mut i: usize = 0;
        proof {
            assert(self.entries@.skip(0) =~= self.entries@);
        }
        while i < self.entries.len()
            invariant
                i <= self.entries@.len(),
                sp_lookup(self.entries@, path@) == sp_lookup(
                    self.entries@.skip(i as int),
                    path@,
                ),
            decreases self.entries@.len() - i,
        {
            proof {
                assert(self.entries@.skip(i as int)[0] == self.entries@[i as int]);
                assert(self.entries@.skip(i as int).drop_first() =~= self.entries@.skip(
                    i as int + 1,
                ));
            }
            if self.entries[i].0.eq(path) {
                proof {
                    assert(sp_lookup(self.entries@.skip(i as int), path@) == Some(
                        self.entries@[i as int].1,
                    ));
                }
                return Some(&self.entries[i].1);
            }
            i += 1;
        }
        None
    }
}

/// One side's content as the backend reported it: the binary classification
/// and the raw bytes.
pub struct SideContent {
    pub binary: bool,
    pub data: Vec<u8>,
}

/// Compares two byte contents.
pub fn eq_bytes(a: &Vec<u8>, b: &Vec<u8>) -> (r: bool)
    ensures
        r == (a@ == b@),
{
    if a.len() != b.len() {
        return false;
    }
    let mut i: usize = 0;
    while i < a.len()
        invariant
            i <= a@.len(),
            a@.len() == b@.len(),
            forall|k: int| 0 <= k < i ==> a@[k] == b@[k],
        decreases a@.len() - i,
    {
        if a[i] != b[i] {
            return false;
        }
        i += 1;
    }
    proof {
        assert(a@ =~= b@);
    }
    true
}

/// Classifies one path's three-way entry state. Both sides absent is an
/// impossible state and a hard failure; a single present side is a deletion
/// conflict against the other; identical contents on both sides never
/// surface as a conflict; differing binary content is opaque; differing text
/// content carries the three-way merged text.
pub fn classify_conflict(
    path: String,
    ancestor: Option<&Vec<u8>>,
    our: Option<&SideContent>,
    their: Option<&SideContent>,
) -> (r: Result<Option<Conflict>, Fail>)
    ensures
        r matches Ok(c) ==> (c matches Some(cf) ==> sp_conflict_path(cf) == path@),
        (our is None && their is None) ==> (r matches Err(f) && f is MissingEntry),
        (our is Some && their is None) ==> (r matches Ok(c) && c matches Some(cf) && cf matches
            Conflict::BranchDeletion(p) && p@ == path@),
        (our is None && their is Some) ==> (r matches Ok(c) && c matches Some(cf) && cf matches
            Conflict::MainDeletion(p) && p@ == path@),
        (our matches Some(o) && their matches Some(t) && o.data@ == t.data@) ==> (r matches Ok(c)
            && c is None),
        (our matches Some(o) && their matches Some(t) && o.data@ != t.data@ && (o.binary
            || t.binary)) ==> (r matches Ok(c) && c matches Some(cf) && cf matches
            Conflict::OpaqueMerge(p) && p@ == path@),
        our matches Some(o) ==> (their matches Some(t) ==> (r matches Ok(c) ==> ((o.data@
            != t.data@ && !o.binary && !t.binary) ==> (c matches Some(cf) && cf is Merge)))),
        our matches Some(o) ==> (their matches Some(t) ==> (r matches Ok(c) ==> (c matches Some(
            cf,
        ) ==> (cf matches Conflict::Merge(mc) ==> (mc.path@ == path@ && mc.main_content@
            == utf8_lossy_of(o.data@) && mc.branch_content@ == utf8_lossy_of(t.data@)
            && mc.merge_content@ == utf8_lossy_of(
            sp_merged(sp_orig(ancestor), o.data@, t.data@),
        )))))),
{
    match (our, their) {
        (None, None) => Err(Fail::MissingEntry),
        (Some(_), None) => Ok(Some(Conflict::BranchDeletion(path))),
        (None, Some(_)) => Ok(Some(Conflict::MainDeletion(path))),
        (Some(o), Some(t)) => {
            if eq_bytes(&o.data, &t.data) {
                Ok(None)
            } else if o.binary || t.binary {
                Ok(Some(Conflict::OpaqueMerge(path)))
            } else {
                let merged: Vec<u8> = match merge_bytes(ancestor, &o.data, &t.data) {
                    Ok(v) => v,
                    Err(e) => {
                        return Err(e);
                    },
                };
                Ok(
                    Some(
                        Conflict::Merge(
                            MergeConflict {
                                path,
                                main_content: bytes_to_text(&o.data),
                                branch_content: bytes_to_text(&t.data),
                                merge_content: bytes_to_text(&merged),
                            },
                        ),
                    ),
                )
            }
        },
    }
}

/// The staging mutation that a resolution choice calls for, given which
/// sides hold an entry.
pub enum StagingAction {
    /// Remove the path from the staging state.
    Delete,
    /// Keep the branch side's entry.
    SelectTheirs,
    /// Keep the base side's entry.
    SelectOurs,
    /// Write the three-way merged text (markers included) as the entry.
    MergeAndKeep,
    /// Write caller-supplied text as the entry.
    ReplaceWith(String),
}

/// Maps a resolution choice to its staging action. `Later` and `Manual`
/// substitute content into the branch side's entry, so they need one.
pub fn resolution_action(choice: &ResolutionChoice, our_present: bool, their_present: bool) -> (r:
    Result<StagingAction, Fail>)
    ensures
        (choice is Incoming && !their_present) ==> (r matches Ok(a) && a is Delete),
        (choice is Incoming && their_present) ==> (r matches Ok(a) && a is SelectTheirs),
        (choice is Base && !our_present) ==> (r matches Ok(a) && a is Delete),
        (choice is Base && our_present) ==> (r matches Ok(a) && a is SelectOurs),
        (choice is Later && their_present) ==> (r matches Ok(a) && a is MergeAndKeep),
        choice matches ResolutionChoice::Manual(s) ==> (their_present ==> (r matches Ok(a)
            && a matches StagingAction::ReplaceWith(t) && t@ == s@)),
        ((choice is Later || choice is Manual) && !their_present) ==> (r matches Err(f)
            && f is MissingEntry),
        r matches Ok(a) ==> (a is SelectTheirs ==> (their_present && choice is Incoming)),
        r matches Ok(a) ==> (a is SelectOurs ==> (our_present && choice is Base)),
        r matches Ok(a) ==> (a is MergeAndKeep ==> (their_present && choice is Later)),
        r matches Ok(a) ==> (a is ReplaceWith ==> (their_present && choice is Manual)),
        r matches Ok(a) ==> (a is Delete ==> ((choice is Incoming && !their_present) || (choice
            is Base && !our_present))),
{
    match choice {
        ResolutionChoice::Incoming => {
            if their_present {
                Ok(StagingAction::SelectTheirs)
            } else {
                Ok(StagingAction::Delete)
            }
        },
        ResolutionChoice::Base => {
            if our_present {
                Ok(StagingAction::SelectOurs)
            } else {
                Ok(StagingAction::Delete)
            }
        },
        ResolutionChoice::Later => {
            if their_present {
                Ok(StagingAction::MergeAndKeep)
            } else {
                Err(Fail::MissingEntry)
            }
        },
        ResolutionChoice::Manual(s) => {
            if their_present {
                Ok(StagingAction::ReplaceWith(s.clone()))
            } else {
                Err(Fail::MissingEntry)
            }
        },
    }
}

/// The conflicts of one replay step that the caller's map leaves undecided,
/// in step order.
pub open spec fn sp_unresolved(cs: Seq<Conflict>, m: Seq<(String, ResolutionChoice)>) -> Seq<
    Conflict,
>
    decreases cs.len(),
{
    if cs.len() == 0 {
        Seq::empty()
    } else if sp_lookup(m, sp_conflict_path(cs[0])) is None {
        seq![cs[0]] + sp_unresolved(cs.drop_first(), m)
    } else {
        sp_unresolved(cs.drop_first(), m)
    }
}

/// Splits a step's conflicts into those the map decides and those left for
/// the caller: exactly the undecided ones come back, in order.
pub fn evaluate_step(conflicts: Vec<Conflict>, resolutions: &ResolutionMap) -> (r: Vec<Conflict>)
    ensures
        r@ == sp_unresolved(conflicts@, resolutions.entries@),
{
    let ghost m: Seq<(String, ResolutionChoice)> = resolutions.entries@;
    let ghost all = conflicts@;
    let mut rest: Vec<Conflict> = conflicts;
    let mut out: Vec<Conflict> = Vec::new();
    while rest.len() > 0
        invariant
            m == resolutions.entries@,
            sp_unresolved(all, m) =~= out@ + sp_unresolved(rest@, m),
        decreases rest.len(),
    {
        let ghost rest0 = rest@;
        let ghost out0 = out@;
        let c: Conflict = rest.remove(0);
        proof {
            assert(rest0.drop_first() =~= rest@);
        }
        let decided: bool = resolutions.get(c.path()).is_some();
        if !decided {
            out.push(c);
            proof {
                assert(sp_unresolved(rest0, m) =~= seq![c] + sp_unresolved(rest@, m));
                assert(out@ =~= out0 + seq![c]);
                assert((out0 + seq![c]) + sp_unresolved(rest@, m) =~= out0 + (seq![c]
                    + sp_unresolved(rest@, m)));
            }
        }
    }
    proof {
        assert(out@ + sp_unresolved(rest@, m) =~= out@);
    }
    out
}

/// The terminal outcome of a replay whose steps report the given conflict
/// lists: `None` when every step resolves fully under the map, else the
/// undecided conflicts of the first step that does not.
pub open spec fn sp_sync_outcome(
    steps: Seq<Seq<Conflict>>,
    m: Seq<(String, ResolutionChoice)>,
) -> Option<Seq<Conflict>>
    decreases steps.len(),
{
    if steps.len() == 0 {
        None
    } else if sp_unresolved(steps[0], m).len() > 0 {
        Some(sp_unresolved(steps[0], m))
    } else {
        sp_sync_outcome(steps.drop_first(), m)
    }
}

/// A sync attempt is all-or-nothing: when step `k` is the first with an
/// undecided conflict, the attempt stops with exactly that step's undecided
/// conflicts, and nothing past step `k` is ever examined — the outcome is
/// already fixed by the first `k + 1` steps.
pub proof fn lemma_sync_all_or_nothing(
    steps: Seq<Seq<Conflict>>,
    m: Seq<(String, ResolutionChoice)>,
    k: int,
)
    requires
        0 <= k < steps.len(),
        sp_unresolved(steps[k], m).len() > 0,
        forall|j: int| 0 <= j < k ==> sp_unresolved(#[trigger] steps[j], m).len() == 0,
    ensures
        sp_sync_outcome(steps, m) == Some(sp_unresolved(steps[k], m)),
        sp_sync_outcome(steps, m) == sp_sync_outcome(steps.take(k + 1), m),
    decreases k,
{
    if k == 0 {
        assert(steps.take(1)[0] == steps[0]);
    } else {
        lemma_sync_all_or_nothing(steps.drop_first(), m, k - 1);
        assert(steps.drop_first()[k - 1] == steps[k]);
        assert forall|j: int| 0 <= j < k - 1 implies sp_unresolved(
            #[trigger] steps.drop_first()[j],
            m,
        ).len() == 0 by {
            assert(steps.drop_first()[j] == steps[j + 1]);
        }
        assert(steps.take(k + 1).drop_first() =~= steps.drop_first().take(k));
        assert(steps.take(k + 1)[0] == steps[0]);
    }
}

/// A replay with no undecided conflict in any step completes.
pub proof fn lemma_sync_completes(steps: Seq<Seq<Conflict>>, m: Seq<(String, ResolutionChoice)>)
    requires
        forall|j: int| 0 <= j < steps.len() ==> sp_unresolved(#[trigger] steps[j], m).len() == 0,
    ensures
        sp_sync_outcome(steps, m) is None,
    decreases steps.len(),
{
    if steps.len() > 0 {
        assert forall|j: int| 0 <= j < steps.drop_first().len() implies sp_unresolved(
            #[trigger] steps.drop_first()[j],
            m,
        ).len() == 0 by {
            assert(steps.drop_first()[j] == steps[j + 1]);
        }
        lemma_sync_completes(steps.drop_first(), m);
    }
}

/// Resolution completeness: a map that decides every path of a step leaves
/// nothing undecided, so a retry that covers every surfaced path completes.
pub proof fn lemma_resolution_completeness(cs: Seq<Conflict>, m: Seq<(String, ResolutionChoice)>)
    requires
        forall|i: int| 0 <= i < cs.len() ==> sp_lookup(m, sp_conflict_path(#[trigger] cs[i])) is Some,
    ensures
        sp_unresolved(cs, m).len() == 0,
    decreases cs.len(),
{
    if cs.len() > 0 {
        assert forall|i: int| 0 <= i < cs.drop_first().len() implies sp_lookup(
            m,
            sp_conflict_path(#[trigger] cs.drop_first()[i]),
        ) is Some by {
            assert(cs.drop_first()[i] == cs[i + 1]);
        }
        lemma_resolution_completeness(cs.drop_first(), m);
    }
}

/// The kind of one replay step, as the backend reports it: an ordinary pick
/// of a commit, or anything else, which this engine does not replay.
pub enum StepKind {
    Pick,
    Other,
}

/// One path's conflict in a replay step's staging state, as the backend
/// reports it: the common-ancestor, base-side and branch-side entries, each
/// possibly absent.
pub struct StagedConflict {
    pub ancestor: Option<git2::IndexEntry>,
    pub our: Option<git2::IndexEntry>,
    pub their: Option<git2::IndexEntry>,
}

/// Clearing this from an entry's flags takes it out of the conflict stages:
/// the bitwise reverse of the backend's stage mask 0x3000.
pub const STAGE_CLEAR_MASK: u16 = 0x000C;

/// The most replay steps one sync attempt will take; past it the backend's
/// walk is treated as malformed, a hard failure rather than a truncation.
pub const MAX_REPLAY_STEPS: usize = 100000;

/// Looks up one side's content and binary classification; a lookup failure
/// is the backend's own error.
fn fetch_side(repo: &git2::Repository, e: &git2::IndexEntry) -> (r: Result<SideContent, Fail>)
    ensures
        r matches Err(f) ==> f is Backend,
{
    let id: git2::Oid = entry_id(e);
    match blob_content(repo, &id) {
        Ok((binary, data)) => Ok(SideContent { binary, data }),
        Err(e) => Err(Fail::Backend(e)),
    }
}

/// Removes the conflicted path and stages `template` in its place, stage
/// flags cleared, with the id overridden when one is given. The path travels
/// as the entry's own raw bytes so the removal targets exactly that entry.
fn select_entry(
    index: &mut git2::Index,
    path: &Vec<u8>,
    template: &git2::IndexEntry,
    id: Option<&git2::Oid>,
) -> (r: Result<(), Fail>)
    ensures
        r matches Err(f) ==> f is Backend,
        r is Ok ==> index_model(*final(index)) == index_model(*old(index)).remove(path@).insert(
            entry_path_of(*template),
            (
                *template,
                match id {
                    Some(i) => Some(*i),
                    None => None,
                },
                entry_flags_of(*template) & STAGE_CLEAR_MASK,
            ),
        ),
{
    if let Err(e) = index_remove_path(index, path) {
        return Err(Fail::Backend(e));
    }
    let flags: u16 = entry_flags(template) & STAGE_CLEAR_MASK;
    match index_add_from(index, template, id, flags) {
        Ok(u) => Ok(u),
        Err(e) => Err(Fail::Backend(e)),
    }
}

/// Applies one resolution choice to the staging state: the branch side's
/// entry for `Incoming`, the base side's for `Base`, removal of the path
/// when the chosen side holds no entry, and the merged or caller-supplied
/// text written into the branch side's entry for `Later` and `Manual` — in
/// every case with the conflict stage bits cleared and no other path
/// touched. It never errors on a choice valid for the conflict's shape:
/// besides backend failures (and a malformed diff stream under `Later`),
/// only `Later` or `Manual` on a conflict without a branch-side entry is
/// refused.
fn apply_resolution(
    repo: &git2::Repository,
    index: &mut git2::Index,
    c: &StagedConflict,
    choice: &ResolutionChoice,
    path: &Vec<u8>,
) -> (r: Result<(), Fail>)
    ensures
        r matches Err(f) ==> (f is Backend || (choice is Later && f is MalformedHunks) || ((
        choice is Later || choice is Manual) && c.their is None && f is MissingEntry)),
        (choice is Incoming && c.their is None && r is Ok) ==> index_model(*final(index))
            == index_model(*old(index)).remove(path@),
        choice is Incoming ==> (c.their matches Some(t) ==> (r is Ok ==> index_model(
            *final(index),
        ) == index_model(*old(index)).remove(path@).insert(
            entry_path_of(t),
            (t, None::<git2::Oid>, entry_flags_of(t) & STAGE_CLEAR_MASK),
        ))),
        (choice is Base && c.our is None && r is Ok) ==> index_model(*final(index))
            == index_model(*old(index)).remove(path@),
        choice is Base ==> (c.our matches Some(o) ==> (r is Ok ==> index_model(*final(index))
            == index_model(*old(index)).remove(path@).insert(
            entry_path_of(o),
            (o, None::<git2::Oid>, entry_flags_of(o) & STAGE_CLEAR_MASK),
        ))),
        (choice is Later || choice is Manual) ==> (c.their matches Some(t) ==> (r is Ok
            ==> exists|i: git2::Oid|
            index_model(*final(index)) == index_model(*old(index)).remove(path@).insert(
                entry_path_of(t),
                (t, Some(i), entry_flags_of(t) & STAGE_CLEAR_MASK),
            ))),
{
    let action: StagingAction = match resolution_action(choice, c.our.is_some(), c.their.is_some()) {
        Ok(a) => a,
        Err(e) => {
            return Err(e);
        },
    };
    match action {
        StagingAction::Delete => {
            match index_remove_path(index, path) {
                Ok(u) => Ok(u),
                Err(e) => Err(Fail::Backend(e)),
            }
        },
        StagingAction::SelectTheirs => {
            match &c.their {
                Some(e) => select_entry(index, path, e, None),
                None => Err(Fail::MissingEntry),
            }
        },
        StagingAction::SelectOurs => {
            match &c.our {
                Some(e) => select_entry(index, path, e, None),
                None => Err(Fail::MissingEntry),
            }
        },
        StagingAction::MergeAndKeep => {
            let their_entry: &git2::IndexEntry = match &c.their {
                Some(e) => e,
                None => {
                    return Err(Fail::MissingEntry);
                },
            };
            let ancestor: Option<Vec<u8>> = match &c.ancestor {
                Some(e) => Some(fetch_side(repo, e)?.data),
                None => None,
            };
            let their: Vec<u8> = fetch_side(repo, their_entry)?.data;
            let our: Vec<u8> = match &c.our {
                Some(e) => fetch_side(repo, e)?.data,
                None => Vec::new(),
            };
            // The base side fills the upstream-delimited block, as in the
            // merged text surfaced to the caller.
            let merged: Vec<u8> = merge_bytes(ancestor.as_ref(), &our, &their)?;
            let id: git2::Oid = match write_blob(repo, &merged) {
                Ok(i) => i,
                Err(e) => {
                    return Err(Fail::Backend(e));
                },
            };
            select_entry(index, path, their_entry, Some(&id))
        },
        StagingAction::ReplaceWith(text) => {
            let their_entry: &git2::IndexEntry = match &c.their {
                Some(e) => e,
                None => {
                    return Err(Fail::MissingEntry);
                },
            };
            let bytes: Vec<u8> = text.as_str().as_bytes_vec();
            let id: git2::Oid = match write_blob(repo, &bytes) {
                Ok(i) => i,
                Err(e) => {
                    return Err(Fail::Backend(e));
                },
            };
            select_entry(index, path, their_entry, Some(&id))
        },
    }
}

/// Handles one conflicted path of a replay step: a caller-supplied
/// resolution is applied at once and not surfaced; identical contents on
/// both sides auto-resolve; anything else is classified and accumulated for
/// the caller.
fn process_conflict(
    repo: &git2::Repository,
    index: &mut git2::Index,
    c: &StagedConflict,
    resolutions: Option<&ResolutionMap>,
    details: &mut Vec<Conflict>,
) -> (r: Result<(), Fail>)
    ensures
        r is Ok ==> final(details)@.len() >= old(details)@.len(),
        r is Ok ==> (forall|i: int|
            0 <= i < old(details)@.len() ==> final(details)@[i] == old(details)@[i]),
        r is Ok ==> (forall|i: int|
            old(details)@.len() <= i < final(details)@.len() ==> (resolutions matches Some(m)
                ==> m.sp_get(sp_conflict_path(#[trigger] final(details)@[i])) is None)),
{
    let path: String = match (&c.our, &c.ancestor, &c.their) {
        (Some(e), _, _) => entry_path(e),
        (None, Some(e), _) => entry_path(e),
        (None, None, Some(e)) => entry_path(e),
        (None, None, None) => {
            return Err(Fail::MissingEntry);
        },
    };
    let path_bytes: Vec<u8> = match (&c.our, &c.ancestor, &c.their) {
        (Some(e), _, _) => entry_path_bytes(e),
        (None, Some(e), _) => entry_path_bytes(e),
        (None, None, Some(e)) => entry_path_bytes(e),
        (None, None, None) => {
            return Err(Fail::MissingEntry);
        },
    };

    if let Some(map) = resolutions {
        if let Some(choice) = map.get(&path) {
            return apply_resolution(repo, index, c, choice, &path_bytes);
        }
    }

    let ghost path_view = path@;
    let ancestor: Option<Vec<u8>> = match &c.ancestor {
        Some(e) => Some(fetch_side(repo, e)?.data),
        None => None,
    };
    let our: Option<SideContent> = match &c.our {
        Some(e) => Some(fetch_side(repo, e)?),
        None => None,
    };
    let their: Option<SideContent> = match &c.their {
        Some(e) => Some(fetch_side(repo, e)?),
        None => None,
    };

    match classify_conflict(path, ancestor.as_ref(), our.as_ref(), their.as_ref())? {
        Some(conflict) => {
            proof {
                assert(sp_conflict_path(conflict) == path_view);
            }
            details.push(conflict);
            Ok(())
        },
        None => {
            // Identical concurrent edits: keep the base side's entry.
            match &c.our {
                Some(e) => select_entry(index, &path_bytes, e, None),
                None => Err(Fail::MissingEntry),
            }
        },
    }
}

/// Replays `branch_name`'s commits one at a time onto the local base branch
/// "main". Per step, every conflicted path is resolved from the caller's map
/// or classified; a step left with unresolved conflicts stops the whole
/// attempt with exactly those conflicts and commits nothing — the branch ref
/// moves only when every commit replays clean, by hard reset when the branch
/// is checked out and by a plain ref update otherwise. A surfaced conflict
/// is always one the supplied map left undecided: a decided path is applied
/// at once and never surfaced.
pub fn try_sync_branch(
    repo: &git2::Repository,
    branch_name: &String,
    resolutions: Option<&ResolutionMap>,
) -> (r: Result<SyncDetails, Fail>)
    ensures
        r matches Ok(d) ==> (d matches SyncDetails::Conflicted(l) ==> l@.len() > 0),
        r matches Ok(d) ==> (d matches SyncDetails::Conflicted(l) ==> forall|i: int|
            0 <= i < l@.len() ==> (resolutions matches Some(m) ==> m.sp_get(
                sp_conflict_path(#[trigger] l@[i]),
            ) is None)),
{
    let init: (git2::Rebase<'_>, git2::Oid) = match rebase_onto(repo, branch_name.as_str(), "main")
        {
        Ok(t) => t,
        Err(e) => {
            return Err(Fail::Backend(e));
        },
    };
    let mut rebase: git2::Rebase<'_> = init.0;
    let mut final_id: git2::Oid = init.1;
    let mut details: Vec<Conflict> = Vec::new();
    let mut steps: usize = 0;
    let mut replay_done: bool = false;

    while steps < MAX_REPLAY_STEPS
        invariant
            details@.len() == 0,
        decreases MAX_REPLAY_STEPS - steps,
    {
        match rebase_next_step(&mut rebase) {
            Err(e) => {
                return Err(Fail::Backend(e));
            },
            Ok(None) => {
                replay_done = true;
                break ;
            },
            Ok(Some(StepKind::Other)) => {
                return Err(Fail::UnsupportedStep);
            },
            Ok(Some(StepKind::Pick)) => {
                let mut index: git2::Index = match rebase_index(&mut rebase) {
                    Ok(i) => i,
                    Err(e) => {
                        return Err(Fail::Backend(e));
                    },
                };
                let mut rest: Vec<StagedConflict> = match index_conflicts(&index) {
                    Ok(v) => v,
                    Err(e) => {
                        return Err(Fail::Backend(e));
                    },
                };
                while rest.len() > 0
                    invariant
                        forall|i: int|
                            0 <= i < details@.len() ==> (resolutions matches Some(m)
                                ==> m.sp_get(sp_conflict_path(#[trigger] details@[i])) is None),
                    decreases rest.len(),
                {
                    let c: StagedConflict = rest.remove(0);
                    if let Err(e) = process_conflict(repo, &mut index, &c, resolutions, &mut details)
                        {
                        return Err(e);
                    }
                }
                if details.len() > 0 {
                    return Ok(SyncDetails::Conflicted(details));
                }
                match rebase_commit_step(&mut rebase, repo) {
                    Ok(Some(id)) => {
                        final_id = id;
                    },
                    Ok(None) => {},
                    Err(e) => {
                        return Err(Fail::Backend(e));
                    },
                }
            },
        }
        steps += 1;
    }
    if !replay_done {
        return Err(Fail::IterationCap);
    }

    if let Err(e) = rebase_finish(&mut rebase, repo) {
        return Err(Fail::Backend(e));
    }

    let is_head: bool = match branch_is_head(repo, branch_name.as_str()) {
        Ok(b) => b,
        Err(e) => {
            return Err(Fail::Backend(e));
        },
    };
    if is_head {
        if let Err(e) = reset_hard_to(repo, &final_id) {
            return Err(Fail::Backend(e));
        }
    } else {
        if let Err(e) = set_branch_to(repo, branch_name.as_str(), &final_id) {
            return Err(Fail::Backend(e));
        }
    }
    Ok(SyncDetails::Complete)
}

} // verus!
