//! Text-level three-way merge. The backend's two-way diff supplies a raw hunk
//! stream for each side; the streams are validated against the documented
//! hunk invariants and fed to the verified region merge. A missing original,
//! upstream or branch blob is treated as empty content, never as an error.

use vstd::prelude::*;

use crate::error::Fail;
use crate::gitio::{blob_content, bytes_to_text, diff_hunks_raw};
use crate::gitio::{diff_of, is_zero_of};
use crate::lines::{lemma_lines_roundtrip, sp_cat_range, sp_lines, sp_views, sp_ws_equal};
use crate::lines::split_lines;
use crate::merge::{
    hunks_wf, lemma_merge_branch_only, lemma_merge_upstream_only, merge_from_hunks, sp_apply,
    sp_hunks_wf, sp_merge, Hunk,
};
use crate::range::Range;

verus! {

/// A raw hunk quadruple is convertible when a zero line count or a one-based
/// start respects the diff convention, and the resulting end index fits the
/// machine.
pub open spec fn sp_raw_ok(rs: Seq<(u32, u32, u32, u32)>) -> bool {
    forall|i: int|
        0 <= i < rs.len() ==> ((#[trigger] rs[i]).1 == 0 || (rs[i].0 >= 1 && rs[i].0 + rs[i].1 - 1
            <= usize::MAX)) && (rs[i].3 == 0 || (rs[i].2 >= 1 && rs[i].2 + rs[i].3 - 1
            <= usize::MAX))
}

/// The hunks denoted by a raw stream, under the one-based closed-open
/// conversion.
pub open spec fn sp_hunks_of(rs: Seq<(u32, u32, u32, u32)>) -> Seq<Hunk> {
    Seq::new(
        rs.len(),
        |i: int|
            Hunk {
                old: Range::sp_from_indices(rs[i].0, rs[i].1),
                new: Range::sp_from_indices(rs[i].2, rs[i].3),
            },
    )
}

/// Converts a raw diff stream into hunks, refusing a stream that breaks the
/// one-based convention.
pub fn hunks_from_raw(raw: &Vec<(u32, u32, u32, u32)>) -> (r: Option<Vec<Hunk>>)
    ensures
        r is Some <==> sp_raw_ok(raw@),
        r matches Some(v) ==> v@ == sp_hunks_of(raw@),
{
    let mut res: Vec<Hunk> = Vec::new();
    let mut i: usize = 0;
    while i < raw.len()
        invariant
            i <= raw.len(),
            forall|k: int|
                0 <= k < i ==> ((#[trigger] raw@[k]).1 == 0 || (raw@[k].0 >= 1 && raw@[k].0
                    + raw@[k].1 - 1 <= usize::MAX)) && (raw@[k].3 == 0 || (raw@[k].2 >= 1
                    && raw@[k].2 + raw@[k].3 - 1 <= usize::MAX)),
            res@ =~= sp_hunks_of(raw@.subrange(0, i as int)),
        decreases raw.len() - i,
    {
        let t: (u32, u32, u32, u32) = raw[i];
        let old_ok: bool = t.1 == 0 || (t.0 >= 1 && (t.0 as u64 - 1) + t.1 as u64
            <= usize::MAX as u64);
        let new_ok: bool = t.3 == 0 || (t.2 >= 1 && (t.2 as u64 - 1) + t.3 as u64
            <= usize::MAX as u64);
        if !(old_ok && new_ok) {
            return None;
        }
        let h: Hunk = Hunk {
            old: Range::from_indices(t.0, t.1),
            new: Range::from_indices(t.2, t.3),
        };
        res.push(h);
        proof {
            assert(res@ =~= sp_hunks_of(raw@.subrange(0, i + 1)));
        }
        i += 1;
    }
    proof {
        assert(raw@.subrange(0, raw@.len() as int) =~= raw@);
    }
    Some(res)
}

/// The content a side contributes: its bytes, or empty content when the blob
/// is absent.
pub open spec fn sp_orig(original: Option<&Vec<u8>>) -> Seq<u8> {
    match original {
        Some(v) => v@,
        None => Seq::empty(),
    }
}

/// The diff of `o` against `n` yields a stream the merge can consume:
/// convertible under the one-based convention and well-formed against the
/// two line counts.
pub open spec fn sp_diff_usable(o: Seq<u8>, n: Seq<u8>) -> bool {
    &&& sp_raw_ok(diff_of(o, n))
    &&& sp_hunks_wf(
        sp_hunks_of(diff_of(o, n)),
        sp_lines(o).len() as int,
        sp_lines(n).len() as int,
    )
}

/// The merged text of the three contents, as the region merge over the two
/// diff streams describes it.
pub open spec fn sp_merged(o: Seq<u8>, u: Seq<u8>, b: Seq<u8>) -> Seq<u8> {
    sp_merge(
        sp_lines(o),
        sp_lines(u),
        sp_lines(b),
        sp_hunks_of(diff_of(o, u)),
        sp_hunks_of(diff_of(o, b)),
        0,
    )
}

/// Three-way merge of byte contents; the diff collaborator works on the
/// buffers alone, so no repository is touched. An absent original is treated
/// as empty content. On success the result is exactly the region merge of
/// the two diff streams; three equal contents merge to themselves; and when
/// one side is at most a whitespace reformatting of the original, the result
/// is the one-sided application of the other side's edits, without conflict
/// markers. A failure is the backend's own error or the malformed-hunks
/// refusal, nothing else.
pub fn merge_bytes(
    original: Option<&Vec<u8>>,
    upstream: &Vec<u8>,
    branch: &Vec<u8>,
) -> (r: Result<Vec<u8>, Fail>)
    ensures
        r matches Err(f) ==> (f is Backend || f is MalformedHunks),
        r matches Ok(v) ==> sp_diff_usable(sp_orig(original), upstream@) && sp_diff_usable(
            sp_orig(original),
            branch@,
        ) && v@ == sp_merged(sp_orig(original), upstream@, branch@),
        r matches Err(f) ==> (f is MalformedHunks ==> !(sp_diff_usable(
            sp_orig(original),
            upstream@,
        ) && sp_diff_usable(sp_orig(original), branch@))),
        r matches Ok(v) ==> ((sp_orig(original) == upstream@ && sp_orig(original) == branch@)
            ==> v@ == sp_orig(original)),
        r matches Ok(v) ==> (sp_ws_equal(sp_orig(original), upstream@) ==> v@ == sp_apply(
            sp_lines(sp_orig(original)),
            sp_lines(branch@),
            sp_hunks_of(diff_of(sp_orig(original), branch@)),
            0,
        )),
        r matches Ok(v) ==> (sp_ws_equal(sp_orig(original), branch@) ==> v@ == sp_apply(
            sp_lines(sp_orig(original)),
            sp_lines(upstream@),
            sp_hunks_of(diff_of(sp_orig(original), upstream@)),
            0,
        )),
{
    let empty: Vec<u8> = Vec::new();
    let orig: &Vec<u8> = match original {
        Some(v) => v,
        None => &empty,
    };
    let ghost o = orig@;

    let raw_u: Vec<(u32, u32, u32, u32)> = match diff_hunks_raw(orig, upstream) {
        Ok(v) => v,
        Err(e) => {
            return Err(Fail::Backend(e));
        },
    };
    let raw_b: Vec<(u32, u32, u32, u32)> = match diff_hunks_raw(orig, branch) {
        Ok(v) => v,
        Err(e) => {
            return Err(Fail::Backend(e));
        },
    };

    let ol: Vec<Vec<u8>> = split_lines(orig);
    let ul: Vec<Vec<u8>> = split_lines(upstream);
    let bl: Vec<Vec<u8>> = split_lines(branch);

    let uh: Vec<Hunk> = match hunks_from_raw(&raw_u) {
        Some(v) => v,
        None => {
            return Err(Fail::MalformedHunks);
        },
    };
    let bh: Vec<Hunk> = match hunks_from_raw(&raw_b) {
        Some(v) => v,
        None => {
            return Err(Fail::MalformedHunks);
        },
    };

    if !hunks_wf(&uh, ol.len(), ul.len()) {
        return Err(Fail::MalformedHunks);
    }
    if !hunks_wf(&bh, ol.len(), bl.len()) {
        return Err(Fail::MalformedHunks);
    }

    let merged: Vec<u8> = merge_from_hunks(&ol, &ul, &bl, &uh, &bh);

    proof {
        assert(sp_views(ol@) == sp_lines(o));
        assert(sp_views(ul@) == sp_lines(upstream@));
        assert(sp_views(bl@) == sp_lines(branch@));
        if o == upstream@ && o == branch@ {
            assert(uh@.len() == 0);
            assert(bh@.len() == 0);
            assert(uh@ =~= Seq::<Hunk>::empty());
            assert(bh@ =~= Seq::<Hunk>::empty());
            assert(merged@ == sp_cat_range(sp_lines(o), 0, sp_lines(o).len() as int));
            assert(sp_lines(o).subrange(0, sp_lines(o).len() as int) =~= sp_lines(o));
            lemma_lines_roundtrip(o);
        }
        if sp_ws_equal(o, upstream@) {
            assert(uh@.len() == 0);
            assert(uh@ =~= Seq::<Hunk>::empty());
            lemma_merge_branch_only(
                sp_lines(o),
                sp_lines(upstream@),
                sp_lines(branch@),
                bh@,
                0,
            );
        }
        if sp_ws_equal(o, branch@) {
            assert(bh@.len() == 0);
            assert(bh@ =~= Seq::<Hunk>::empty());
            lemma_merge_upstream_only(
                sp_lines(o),
                sp_lines(upstream@),
                sp_lines(branch@),
                uh@,
                0,
            );
        }
    }
    Ok(merged)
}

/// Maps one blob lookup result to mergeable content: binary content is
/// refused, since the merge works line-by-line; text content passes through
/// unchanged.
fn text_content(lookup: (bool, Vec<u8>)) -> (r: Result<Vec<u8>, Fail>)
    ensures
        lookup.0 ==> (r matches Err(f) && f is BinaryContent),
        !lookup.0 ==> (r matches Ok(v) && v == lookup.1),
{
    if lookup.0 {
        Err(Fail::BinaryContent)
    } else {
        Ok(lookup.1)
    }
}

/// Looks up one side's content by id: a zero id never errors and stands for
/// empty content; binary content is refused; a lookup failure is the
/// backend's own error.
fn content_by_id(repo: &git2::Repository, id: &git2::Oid) -> (r: Result<Vec<u8>, Fail>)
    ensures
        is_zero_of(*id) ==> (r matches Ok(v) && v@.len() == 0),
        r matches Err(f) ==> (f is Backend || f is BinaryContent),
{
    if id.is_zero() {
        return Ok(Vec::new());
    }
    match blob_content(repo, id) {
        Ok(lookup) => text_content(lookup),
        Err(e) => Err(Fail::Backend(e)),
    }
}

/// Three-way merge of the blobs behind three content ids, as text. The
/// object store is only read: a zero id stands for empty content without a
/// lookup, and the diff works on the fetched buffers. The contents come from
/// the store, so nothing links them to the ids here; the returned text is
/// the lossy decoding of `merge_bytes` of whatever contents the store held,
/// and a failure is a backend error, the binary refusal or the
/// malformed-hunks refusal, nothing else.
pub fn get_merge_text(
    repo: &git2::Repository,
    original_id: &git2::Oid,
    upstream_id: &git2::Oid,
    branch_id: &git2::Oid,
) -> (r: Result<String, Fail>)
    ensures
        r matches Err(f) ==> (f is Backend || f is BinaryContent || f is MalformedHunks),
{
    let original: Vec<u8> = match content_by_id(repo, original_id) {
        Ok(v) => v,
        Err(e) => {
            return Err(e);
        },
    };
    let upstream: Vec<u8> = match content_by_id(repo, upstream_id) {
        Ok(v) => v,
        Err(e) => {
            return Err(e);
        },
    };
    let branch: Vec<u8> = match content_by_id(repo, branch_id) {
        Ok(v) => v,
        Err(e) => {
            return Err(e);
        },
    };
    match merge_bytes(Some(&original), &upstream, &branch) {
        Ok(v) => Ok(bytes_to_text(&v)),
        Err(e) => Err(e),
    }
}

} // verus!
