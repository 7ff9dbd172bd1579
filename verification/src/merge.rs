//! Three-way, line-range text merge. Two hunk streams — one per side, each
//! diffing the common original against that side — are walked in lock-step by
//! original-line order. Touching hunks are absorbed into one region; a region
//! fed by a single side is replaced by that side's lines, and a region fed by
//! both sides becomes a conflict block: an upstream-delimited block, a
//! separator, and a branch-delimited block, in that fixed order.

use vstd::prelude::*;

use crate::lines::{sp_cat_range, sp_views};
use crate::lines::{push_bytes, push_line_range};
use crate::range::Range;

verus! {

/// One contiguous edit from a two-way line diff: `old` indexes the original
/// line sequence, `new` the changed side's line sequence.
#[derive(Debug, Clone, Copy, PartialEq, Eq, Structural)]
pub struct Hunk {
    pub old: Range,
    pub new: Range,
}

/// Bytes of the line opening a conflict block: the upstream side follows.
pub open spec fn marker_open() -> Seq<u8> {
    seq![60u8, 60u8, 60u8, 60u8, 60u8, 60u8, 60u8, 10u8]
}

/// Bytes of the line separating the upstream block from the branch block.
pub open spec fn marker_mid() -> Seq<u8> {
    seq![61u8, 61u8, 61u8, 61u8, 61u8, 61u8, 61u8, 10u8]
}

/// Bytes of the line closing a conflict block: the branch side precedes.
pub open spec fn marker_close() -> Seq<u8> {
    seq![62u8, 62u8, 62u8, 62u8, 62u8, 62u8, 62u8, 10u8]
}

/// A hunk stream is well-formed against an original of `old_len` lines and a
/// changed side of `new_len` lines when every range is ordered and in bounds
/// and the hunks come in original-line order.
pub open spec fn sp_hunks_wf(hs: Seq<Hunk>, old_len: int, new_len: int) -> bool {
    &&& forall|i: int|
        0 <= i < hs.len() ==> (#[trigger] hs[i]).old.wf() && hs[i].new.wf() && hs[i].old.1
            <= old_len && hs[i].new.1 <= new_len
    &&& forall|i: int, j: int| 0 <= i <= j < hs.len() ==> (#[trigger] hs[i]).old.0 <= (
    #[trigger] hs[j]).old.0
}

/// Fixpoint of region absorption: while the head hunk of either stream
/// touches the accumulated original range, widen the range with it and join
/// that stream's replacement range, consuming the hunk.
pub open spec fn sp_absorb(
    region: Range,
    ur: Option<Range>,
    br: Option<Range>,
    uh: Seq<Hunk>,
    bh: Seq<Hunk>,
) -> (Range, Option<Range>, Option<Range>, Seq<Hunk>, Seq<Hunk>)
    decreases uh.len() + bh.len(),
{
    if uh.len() > 0 && uh[0].old.sp_touches(region) {
        sp_absorb(
            region.sp_join(uh[0].old),
            Some(
                match ur {
                    Some(r) => uh[0].new.sp_join(r),
                    None => uh[0].new,
                },
            ),
            br,
            uh.drop_first(),
            bh,
        )
    } else if bh.len() > 0 && bh[0].old.sp_touches(region) {
        sp_absorb(
            region.sp_join(bh[0].old),
            ur,
            Some(
                match br {
                    Some(r) => bh[0].new.sp_join(r),
                    None => bh[0].new,
                },
            ),
            uh,
            bh.drop_first(),
        )
    } else {
        (region, ur, br, uh, bh)
    }
}

/// The original range that seeds the next region: whichever pending hunk
/// starts earlier in the original.
pub open spec fn sp_seed(uh: Seq<Hunk>, bh: Seq<Hunk>) -> Range {
    if uh.len() > 0 && bh.len() > 0 {
        if uh[0].old.0 < bh[0].old.0 {
            uh[0].old
        } else {
            bh[0].old
        }
    } else if uh.len() > 0 {
        uh[0].old
    } else {
        bh[0].old
    }
}

/// What one region emits: a single side's replacement lines verbatim, or,
/// when both sides contributed, the upstream block then the branch block
/// inside conflict markers.
pub open spec fn sp_block(
    ur: Option<Range>,
    br: Option<Range>,
    ul: Seq<Seq<u8>>,
    bl: Seq<Seq<u8>>,
) -> Seq<u8> {
    match (ur, br) {
        (Some(u), Some(b)) => marker_open() + sp_cat_range(ul, u.0 as int, u.1 as int)
            + marker_mid() + sp_cat_range(bl, b.0 as int, b.1 as int) + marker_close(),
        (Some(u), None) => sp_cat_range(ul, u.0 as int, u.1 as int),
        (None, Some(b)) => sp_cat_range(bl, b.0 as int, b.1 as int),
        (None, None) => Seq::empty(),
    }
}

/// The merged output from original cursor `oi` on: original lines up to the
/// next region verbatim, that region's block, and so on; after the last
/// region, the rest of the original verbatim.
pub open spec fn sp_merge(
    ol: Seq<Seq<u8>>,
    ul: Seq<Seq<u8>>,
    bl: Seq<Seq<u8>>,
    uh: Seq<Hunk>,
    bh: Seq<Hunk>,
    oi: int,
) -> Seq<u8>
    decreases uh.len() + bh.len(),
{
    if uh.len() == 0 && bh.len() == 0 {
        sp_cat_range(ol, oi, ol.len() as int)
    } else {
        let t = sp_absorb(sp_seed(uh, bh), None, None, uh, bh);
        if t.3.len() + t.4.len() < uh.len() + bh.len() {
            sp_cat_range(ol, oi, t.0.0 as int) + sp_block(t.1, t.2, ul, bl) + sp_merge(
                ol,
                ul,
                bl,
                t.3,
                t.4,
                t.0.1 as int,
            )
        } else {
            Seq::empty()
        }
    }
}

/// Touching a subrange implies touching any range that covers it.
pub proof fn lemma_touches_widen(a: Range, inner: Range, outer: Range)
    requires
        a.sp_touches(inner),
        outer.0 <= inner.0,
        inner.1 <= outer.1,
    ensures
        a.sp_touches(outer),
{
}

/// The conflict-block line preceding the upstream side's lines.
pub fn marker_open_vec() -> (r: Vec<u8>)
    ensures
        r@ == marker_open(),
{
    let mut v: Vec<u8> = Vec::new();
    let mut k: usize = 0;
    while k < 7
        invariant
            k <= 7,
            v@ =~= Seq::new(k as nat, |i: int| 60u8),
        decreases 7 - k,
    {
        v.push(60u8);
        k += 1;
    }
    v.push(10u8);
    proof {
        assert(v@ =~= marker_open());
    }
    v
}

/// The conflict-block line separating the two sides.
pub fn marker_mid_vec() -> (r: Vec<u8>)
    ensures
        r@ == marker_mid(),
{
    let mut v: Vec<u8> = Vec::new();
    let mut k: usize = 0;
    while k < 7
        invariant
            k <= 7,
            v@ =~= Seq::new(k as nat, |i: int| 61u8),
        decreases 7 - k,
    {
        v.push(61u8);
        k += 1;
    }
    v.push(10u8);
    proof {
        assert(v@ =~= marker_mid());
    }
    v
}

/// The conflict-block line following the branch side's lines.
pub fn marker_close_vec() -> (r: Vec<u8>)
    ensures
        r@ == marker_close(),
{
    let mut v: Vec<u8> = Vec::new();
    let mut k: usize = 0;
    while k < 7
        invariant
            k <= 7,
            v@ =~= Seq::new(k as nat, |i: int| 62u8),
        decreases 7 - k,
    {
        v.push(62u8);
        k += 1;
    }
    v.push(10u8);
    proof {
        assert(v@ =~= marker_close());
    }
    v
}

/// A suffix of a well-formed stream is well-formed.
pub proof fn lemma_wf_skip(hs: Seq<Hunk>, old_len: int, new_len: int, n: int)
    requires
        sp_hunks_wf(hs, old_len, new_len),
        0 <= n <= hs.len(),
    ensures
        sp_hunks_wf(hs.skip(n), old_len, new_len),
{
    assert forall|i: int| 0 <= i < hs.skip(n).len() implies (#[trigger] hs.skip(n)[i]).old.wf()
        && hs.skip(n)[i].new.wf() && hs.skip(n)[i].old.1 <= old_len && hs.skip(n)[i].new.1
        <= new_len by {
        assert(hs.skip(n)[i] == hs[i + n]);
    }
    assert forall|i: int, j: int| 0 <= i <= j < hs.skip(n).len() implies (
    #[trigger] hs.skip(n)[i]).old.0 <= (#[trigger] hs.skip(n)[j]).old.0 by {
        assert(hs.skip(n)[i] == hs[i + n]);
        assert(hs.skip(n)[j] == hs[j + n]);
    }
}

/// Checks a raw hunk stream against the original and changed side lengths:
/// ranges ordered and in bounds, starts in original order.
pub fn hunks_wf(hs: &Vec<Hunk>, old_len: usize, new_len: usize) -> (r: bool)
    ensures
        r == sp_hunks_wf(hs@, old_len as int, new_len as int),
{
    let mut i: usize = 0;
    let mut ok: bool = true;
    while i < hs.len()
        invariant
            i <= hs.len(),
            ok ==> forall|k: int|
                0 <= k < i ==> (#[trigger] hs@[k]).old.wf() && hs@[k].new.wf() && hs@[k].old.1
                    <= old_len && hs@[k].new.1 <= new_len,
            ok ==> forall|k: int| 1 <= k < i ==> hs@[k - 1].old.0 <= (#[trigger] hs@[k]).old.0,
            !ok ==> !sp_hunks_wf(hs@, old_len as int, new_len as int),
        decreases hs.len() - i,
    {
        let h: Hunk = hs[i];
        if !(h.old.0 <= h.old.1 && h.old.1 <= old_len && h.new.0 <= h.new.1 && h.new.1 <= new_len) {
            ok = false;
        }
        if i > 0 && hs[i - 1].old.0 > h.old.0 {
            ok = false;
        }
        i += 1;
    }
    if ok {
        proof {
            assert forall|a: int, b: int| 0 <= a <= b < hs@.len() implies (
            #[trigger] hs@[a]).old.0 <= (#[trigger] hs@[b]).old.0 by {
                lemma_starts_sorted(hs@, a, b);
            }
        }
    }
    ok
}

proof fn lemma_starts_sorted(hs: Seq<Hunk>, a: int, b: int)
    requires
        forall|k: int| 1 <= k < hs.len() ==> hs[k - 1].old.0 <= (#[trigger] hs[k]).old.0,
        0 <= a <= b < hs.len(),
    ensures
        hs[a].old.0 <= hs[b].old.0,
    decreases b - a,
{
    if a < b {
        lemma_starts_sorted(hs, a, b - 1);
        assert(hs[b - 1].old.0 <= hs[b].old.0);
    }
}

/// Merges the two hunk streams over the three line sequences, emitting the
/// exact byte sequence that `sp_merge` describes.
pub fn merge_from_hunks(
    ol: &Vec<Vec<u8>>,
    ul: &Vec<Vec<u8>>,
    bl: &Vec<Vec<u8>>,
    uh: &Vec<Hunk>,
    bh: &Vec<Hunk>,
) -> (r: Vec<u8>)
    requires
        sp_hunks_wf(uh@, ol.len() as int, ul.len() as int),
        sp_hunks_wf(bh@, ol.len() as int, bl.len() as int),
    ensures
        r@ == sp_merge(sp_views(ol@), sp_views(ul@), sp_views(bl@), uh@, bh@, 0),
{
    let ghost olv = sp_views(ol@);
    let ghost ulv = sp_views(ul@);
    let ghost blv = sp_views(bl@);
    let ghost target = sp_merge(olv, ulv, blv, uh@, bh@, 0);

    let mut res: Vec<u8> = Vec::new();
    let mut ui: usize = 0;
    let mut bi: usize = 0;
    let mut oi: usize = 0;

    proof {
        assert(uh@.skip(0) =~= uh@);
        assert(bh@.skip(0) =~= bh@);
        assert(res@ + sp_merge(olv, ulv, blv, uh@.skip(0), bh@.skip(0), 0) =~= target);
    }

    while ui < uh.len() || bi < bh.len()
        invariant
            ui <= uh.len(),
            bi <= bh.len(),
            oi <= ol.len(),
            sp_hunks_wf(uh@, ol.len() as int, ul.len() as int),
            sp_hunks_wf(bh@, ol.len() as int, bl.len() as int),
            olv == sp_views(ol@),
            ulv == sp_views(ul@),
            blv == sp_views(bl@),
            forall|k: int| ui <= k < uh@.len() ==> (#[trigger] uh@[k]).old.0 >= oi,
            forall|k: int| bi <= k < bh@.len() ==> (#[trigger] bh@[k]).old.0 >= oi,
            res@ + sp_merge(olv, ulv, blv, uh@.skip(ui as int), bh@.skip(bi as int), oi as int)
                == target,
        decreases uh.len() - ui + bh.len() - bi,
    {
        let ghost ui0 = ui as int;
        let ghost bi0 = bi as int;

        let mut region: Range = if ui < uh.len() && bi < bh.len() {
            if uh[ui].old.0 < bh[bi].old.0 {
                uh[ui].old
            } else {
                bh[bi].old
            }
        } else if ui < uh.len() {
            uh[ui].old
        } else {
            bh[bi].old
        };
        let ghost seed = region;
        proof {
            assert(uh@.skip(ui0).len() == uh@.len() - ui0);
            assert(bh@.skip(bi0).len() == bh@.len() - bi0);
            if ui0 < uh@.len() {
                assert(uh@.skip(ui0)[0] == uh@[ui0]);
            }
            if bi0 < bh@.len() {
                assert(bh@.skip(bi0)[0] == bh@[bi0]);
            }
            assert(seed == sp_seed(uh@.skip(ui0), bh@.skip(bi0)));
        }

        let mut ur: Option<Range> = None;
        let mut br: Option<Range> = None;

        loop
            invariant
                ui0 <= ui <= uh.len(),
                bi0 <= bi <= bh.len(),
                oi <= ol.len(),
                sp_hunks_wf(uh@, ol.len() as int, ul.len() as int),
                sp_hunks_wf(bh@, ol.len() as int, bl.len() as int),
                region.wf(),
                region.0 >= oi,
                region.1 <= ol.len(),
                region.0 <= seed.0,
                seed.1 <= region.1,
                match ur {
                    Some(r) => r.wf() && r.1 <= ul.len(),
                    None => true,
                },
                match br {
                    Some(r) => r.wf() && r.1 <= bl.len(),
                    None => true,
                },
                (ui > ui0) == (ur is Some),
                (bi > bi0) == (br is Some),
                forall|k: int| ui <= k < uh@.len() ==> (#[trigger] uh@[k]).old.0 >= oi,
                forall|k: int| bi <= k < bh@.len() ==> (#[trigger] bh@[k]).old.0 >= oi,
                forall|k: int| ui <= k < uh@.len() ==> (#[trigger] uh@[k]).old.0 >= region.0,
                forall|k: int| bi <= k < bh@.len() ==> (#[trigger] bh@[k]).old.0 >= region.0,
                sp_absorb(region, ur, br, uh@.skip(ui as int), bh@.skip(bi as int)) == sp_absorb(
                    seed,
                    None,
                    None,
                    uh@.skip(ui0),
                    bh@.skip(bi0),
                ),
                (ui0 < uh@.len() && seed == uh@[ui0].old) || (bi0 < bh@.len() && seed
                    == bh@[bi0].old),
            ensures
                !(ui < uh.len() && uh@[ui as int].old.sp_touches(region)),
                !(bi < bh.len() && bh@[bi as int].old.sp_touches(region)),
                ui > ui0 || bi > bi0,
            decreases uh.len() - ui + bh.len() - bi,
        {
            if ui < uh.len() && uh[ui].old.touches(&region) {
                proof {
                    assert(uh@.skip(ui as int)[0] == uh@[ui as int]);
                    assert(uh@.skip(ui as int).drop_first() =~= uh@.skip(ui as int + 1));
                }
                let h: Hunk = uh[ui];
                region.join_mut(&h.old);
                ur = Some(h.new.join_with_opt(&ur));
                ui += 1;
            } else if bi < bh.len() && bh[bi].old.touches(&region) {
                proof {
                    assert(bh@.skip(bi as int)[0] == bh@[bi as int]);
                    assert(bh@.skip(bi as int).drop_first() =~= bh@.skip(bi as int + 1));
                }
                let h: Hunk = bh[bi];
                region.join_mut(&h.old);
                br = Some(h.new.join_with_opt(&br));
                bi += 1;
            } else {
                proof {
                    if ui == ui0 && bi == bi0 {
                        if ui0 < uh@.len() && seed == uh@[ui0].old {
                            lemma_touches_widen(uh@[ui0].old, seed, region);
                            assert(false);
                        } else {
                            assert(bi0 < bh@.len() && seed == bh@[bi0].old);
                            lemma_touches_widen(bh@[bi0].old, seed, region);
                            assert(false);
                        }
                    }
                }
                break ;
            }
        }

        proof {
            // The loop stopped at the absorption fixpoint.
            assert(sp_absorb(region, ur, br, uh@.skip(ui as int), bh@.skip(bi as int)) == (
                region,
                ur,
                br,
                uh@.skip(ui as int),
                bh@.skip(bi as int),
            ));
            let t = sp_absorb(seed, None, None, uh@.skip(ui0), bh@.skip(bi0));
            assert(t.0 == region && t.1 == ur && t.2 == br);
            assert(t.3 =~= uh@.skip(ui as int) && t.4 =~= bh@.skip(bi as int));
            assert(t.3.len() + t.4.len() < uh@.skip(ui0).len() + bh@.skip(bi0).len());
            assert(sp_merge(olv, ulv, blv, uh@.skip(ui0), bh@.skip(bi0), oi as int)
                == sp_cat_range(olv, oi as int, region.0 as int) + sp_block(ur, br, ulv, blv)
                + sp_merge(
                olv,
                ulv,
                blv,
                uh@.skip(ui as int),
                bh@.skip(bi as int),
                region.1 as int,
            ));
        }

        let ghost res0 = res@;
        push_line_range(&mut res, ol, oi, region.0);
        match (ur, br) {
            (Some(u), Some(b)) => {
                let open_marker: Vec<u8> = marker_open_vec();
                push_bytes(&mut res, &open_marker);
                push_line_range(&mut res, ul, u.0, u.1);
                let mid_marker: Vec<u8> = marker_mid_vec();
                push_bytes(&mut res, &mid_marker);
                push_line_range(&mut res, bl, b.0, b.1);
                let close_marker: Vec<u8> = marker_close_vec();
                push_bytes(&mut res, &close_marker);
            },
            (Some(u), None) => {
                push_line_range(&mut res, ul, u.0, u.1);
            },
            (None, Some(b)) => {
                push_line_range(&mut res, bl, b.0, b.1);
            },
            (None, None) => {
                proof {
                    assert(false);
                }
            },
        }
        proof {
            assert(res@ =~= res0 + (sp_cat_range(olv, oi as int, region.0 as int) + sp_block(
                ur,
                br,
                ulv,
                blv,
            )));
            assert(res@ + sp_merge(
                olv,
                ulv,
                blv,
                uh@.skip(ui as int),
                bh@.skip(bi as int),
                region.1 as int,
            ) =~= target);
        }
        oi = region.1;
        proof {
            assert forall|k: int| ui <= k < uh@.len() implies (#[trigger] uh@[k]).old.0 >= oi by {
                if ui < uh@.len() {
                    assert(uh@[ui as int].old.0 <= uh@[k].old.0);
                    assert(uh@.skip(ui as int)[0] == uh@[ui as int]);
                }
            }
            assert forall|k: int| bi <= k < bh@.len() implies (#[trigger] bh@[k]).old.0 >= oi by {
                if bi < bh@.len() {
                    assert(bh@[bi as int].old.0 <= bh@[k].old.0);
                    assert(bh@.skip(bi as int)[0] == bh@[bi as int]);
                }
            }
        }
    }

    proof {
        assert(uh@.skip(ui as int).len() == 0 && bh@.skip(bi as int).len() == 0);
    }
    push_line_range(&mut res, ol, oi, ol.len());
    proof {
        assert(res@ =~= target);
    }
    res
}

/// One-sided absorption: a single stream widens the region and joins its
/// replacement range, as `sp_absorb` does when the other stream is empty.
pub open spec fn sp_absorb_one(region: Range, nr: Range, hs: Seq<Hunk>) -> (Range, Range, Seq<Hunk>)
    decreases hs.len(),
{
    if hs.len() > 0 && hs[0].old.sp_touches(region) {
        sp_absorb_one(region.sp_join(hs[0].old), hs[0].new.sp_join(nr), hs.drop_first())
    } else {
        (region, nr, hs)
    }
}

/// One-sided absorption leaves a suffix of the stream.
pub proof fn lemma_absorb_one_suffix(region: Range, nr: Range, hs: Seq<Hunk>)
    ensures
        sp_absorb_one(region, nr, hs).2.len() <= hs.len(),
        sp_absorb_one(region, nr, hs).2 == hs.skip(
            hs.len() - sp_absorb_one(region, nr, hs).2.len(),
        ),
    decreases hs.len(),
{
    if hs.len() > 0 && hs[0].old.sp_touches(region) {
        lemma_absorb_one_suffix(region.sp_join(hs[0].old), hs[0].new.sp_join(nr), hs.drop_first());
        let t = sp_absorb_one(region, nr, hs);
        assert(hs.drop_first().skip(hs.drop_first().len() - t.2.len()) =~= hs.skip(
            hs.len() - t.2.len(),
        ));
    } else {
        assert(hs.skip(0) =~= hs);
    }
}

/// Applying one side's hunks alone: each region is replaced by that side's
/// joined replacement lines, and no conflict markers appear.
pub open spec fn sp_apply(ol: Seq<Seq<u8>>, sl: Seq<Seq<u8>>, hs: Seq<Hunk>, oi: int) -> Seq<u8>
    decreases hs.len(),
{
    if hs.len() == 0 {
        sp_cat_range(ol, oi, ol.len() as int)
    } else {
        let t = sp_absorb_one(hs[0].old, hs[0].new, hs.drop_first());
        if t.2.len() < hs.len() {
            sp_cat_range(ol, oi, t.0.0 as int) + sp_cat_range(sl, t.1.0 as int, t.1.1 as int)
                + sp_apply(ol, sl, t.2, t.0.1 as int)
        } else {
            Seq::empty()
        }
    }
}

proof fn lemma_absorb_empty_u(region: Range, nr: Range, hs: Seq<Hunk>)
    ensures
        ({
            let t1 = sp_absorb(region, None, Some(nr), Seq::<Hunk>::empty(), hs);
            let t2 = sp_absorb_one(region, nr, hs);
            t1.0 == t2.0 && t1.1 is None && t1.2 == Some(t2.1) && t1.3.len() == 0 && t1.4 == t2.2
        }),
    decreases hs.len(),
{
    if hs.len() > 0 && hs[0].old.sp_touches(region) {
        lemma_absorb_empty_u(region.sp_join(hs[0].old), hs[0].new.sp_join(nr), hs.drop_first());
    }
}

proof fn lemma_absorb_empty_b(region: Range, nr: Range, hs: Seq<Hunk>)
    ensures
        ({
            let t1 = sp_absorb(region, Some(nr), None, hs, Seq::<Hunk>::empty());
            let t2 = sp_absorb_one(region, nr, hs);
            t1.0 == t2.0 && t1.1 == Some(t2.1) && t1.2 is None && t1.3 == t2.2 && t1.4.len() == 0
        }),
    decreases hs.len(),
{
    if hs.len() > 0 && hs[0].old.sp_touches(region) {
        lemma_absorb_empty_b(region.sp_join(hs[0].old), hs[0].new.sp_join(nr), hs.drop_first());
    }
}

/// When the upstream stream is empty the merge is exactly the one-sided
/// application of the branch hunks: only branch and original lines appear,
/// without conflict markers.
pub proof fn lemma_merge_branch_only(
    ol: Seq<Seq<u8>>,
    ul: Seq<Seq<u8>>,
    bl: Seq<Seq<u8>>,
    bh: Seq<Hunk>,
    oi: int,
)
    requires
        sp_hunks_wf(bh, ol.len() as int, bl.len() as int),
    ensures
        sp_merge(ol, ul, bl, Seq::empty(), bh, oi) == sp_apply(ol, bl, bh, oi),
    decreases bh.len(),
{
    let uh = Seq::<Hunk>::empty();
    if bh.len() > 0 {
        let seed = sp_seed(uh, bh);
        assert(seed == bh[0].old);
        assert(bh[0].old.wf());
        assert(seed.sp_join(bh[0].old) == bh[0].old);
        lemma_absorb_empty_u(bh[0].old, bh[0].new, bh.drop_first());
        let t2 = sp_absorb_one(bh[0].old, bh[0].new, bh.drop_first());
        lemma_absorb_one_suffix(bh[0].old, bh[0].new, bh.drop_first());
        let m = bh.drop_first().len() - t2.2.len();
        assert(bh.drop_first().skip(m) =~= bh.skip(m + 1));
        lemma_wf_skip(bh, ol.len() as int, bl.len() as int, m + 1);
        lemma_merge_branch_only(ol, ul, bl, t2.2, t2.0.1 as int);
        let t1 = sp_absorb(seed, None, None, uh, bh);
        assert(t1 == sp_absorb(bh[0].old, None, Some(bh[0].new), uh, bh.drop_first()));
        assert(t1.3.len() + t1.4.len() < uh.len() + bh.len());
        assert(sp_block(t1.1, t1.2, ul, bl) == sp_cat_range(bl, t2.1.0 as int, t2.1.1 as int));
        assert(t1.3 =~= Seq::<Hunk>::empty());
        assert(t1.4 == t2.2);
        assert(sp_merge(ol, ul, bl, t1.3, t1.4, t1.0.1 as int) == sp_apply(
            ol,
            bl,
            t2.2,
            t2.0.1 as int,
        ));
        assert(sp_merge(ol, ul, bl, uh, bh, oi) == sp_cat_range(ol, oi, t2.0.0 as int)
            + sp_cat_range(bl, t2.1.0 as int, t2.1.1 as int) + sp_apply(
            ol,
            bl,
            t2.2,
            t2.0.1 as int,
        ));
        assert(sp_apply(ol, bl, bh, oi) == sp_cat_range(ol, oi, t2.0.0 as int) + sp_cat_range(
            bl,
            t2.1.0 as int,
            t2.1.1 as int,
        ) + sp_apply(ol, bl, t2.2, t2.0.1 as int));
    }
}

/// When the branch stream is empty the merge is exactly the one-sided
/// application of the upstream hunks.
pub proof fn lemma_merge_upstream_only(
    ol: Seq<Seq<u8>>,
    ul: Seq<Seq<u8>>,
    bl: Seq<Seq<u8>>,
    uh: Seq<Hunk>,
    oi: int,
)
    requires
        sp_hunks_wf(uh, ol.len() as int, ul.len() as int),
    ensures
        sp_merge(ol, ul, bl, uh, Seq::empty(), oi) == sp_apply(ol, ul, uh, oi),
    decreases uh.len(),
{
    let bh = Seq::<Hunk>::empty();
    if uh.len() > 0 {
        let seed = sp_seed(uh, bh);
        assert(seed == uh[0].old);
        assert(uh[0].old.wf());
        assert(seed.sp_join(uh[0].old) == uh[0].old);
        lemma_absorb_empty_b(uh[0].old, uh[0].new, uh.drop_first());
        let t2 = sp_absorb_one(uh[0].old, uh[0].new, uh.drop_first());
        lemma_absorb_one_suffix(uh[0].old, uh[0].new, uh.drop_first());
        let m = uh.drop_first().len() - t2.2.len();
        assert(uh.drop_first().skip(m) =~= uh.skip(m + 1));
        lemma_wf_skip(uh, ol.len() as int, ul.len() as int, m + 1);
        lemma_merge_upstream_only(ol, ul, bl, t2.2, t2.0.1 as int);
        let t1 = sp_absorb(seed, None, None, uh, bh);
        assert(t1 == sp_absorb(uh[0].old, Some(uh[0].new), None, uh.drop_first(), bh));
        assert(t1.3.len() + t1.4.len() < uh.len() + bh.len());
        assert(sp_block(t1.1, t1.2, ul, bl) == sp_cat_range(ul, t2.1.0 as int, t2.1.1 as int));
        assert(t1.4 =~= Seq::<Hunk>::empty());
        assert(t1.3 == t2.2);
        assert(sp_merge(ol, ul, bl, t1.3, t1.4, t1.0.1 as int) == sp_apply(
            ol,
            ul,
            t2.2,
            t2.0.1 as int,
        ));
        assert(sp_merge(ol, ul, bl, uh, bh, oi) == sp_cat_range(ol, oi, t2.0.0 as int)
            + sp_cat_range(ul, t2.1.0 as int, t2.1.1 as int) + sp_apply(
            ol,
            ul,
            t2.2,
            t2.0.1 as int,
        ));
        assert(sp_apply(ol, ul, uh, oi) == sp_cat_range(ol, oi, t2.0.0 as int) + sp_cat_range(
            ul,
            t2.1.0 as int,
            t2.1.1 as int,
        ) + sp_apply(ol, ul, t2.2, t2.0.1 as int));
    }
}

/// Overlap produces markers in fixed order: when one hunk from each side
/// touches the other, the merge is the original up to the joined region, then
/// an upstream-delimited block, the separator, a branch-delimited block and
/// the closing marker — upstream first, branch second, whichever side's hunk
/// came first — then the rest of the original. No line of either side's
/// replacement range is lost.
pub proof fn lemma_overlap_markers(
    ol: Seq<Seq<u8>>,
    ul: Seq<Seq<u8>>,
    bl: Seq<Seq<u8>>,
    h1: Hunk,
    h2: Hunk,
)
    requires
        sp_hunks_wf(seq![h1], ol.len() as int, ul.len() as int),
        sp_hunks_wf(seq![h2], ol.len() as int, bl.len() as int),
        h1.old.sp_touches(h2.old),
    ensures
        ({
            let region = h1.old.sp_join(h2.old);
            sp_merge(ol, ul, bl, seq![h1], seq![h2], 0) == sp_cat_range(ol, 0, region.0 as int) + (
            marker_open() + sp_cat_range(ul, h1.new.0 as int, h1.new.1 as int) + marker_mid()
                + sp_cat_range(bl, h2.new.0 as int, h2.new.1 as int) + marker_close())
                + sp_cat_range(ol, region.1 as int, ol.len() as int)
        }),
{
    let uh = seq![h1];
    let bh = seq![h2];
    assert(uh[0] == h1 && bh[0] == h2);
    assert(h1.old.wf() && h2.old.wf());
    assert(uh.drop_first() =~= Seq::<Hunk>::empty());
    assert(bh.drop_first() =~= Seq::<Hunk>::empty());
    let seed = sp_seed(uh, bh);
    let region = h1.old.sp_join(h2.old);
    let t = sp_absorb(seed, None, None, uh, bh);
    if h1.old.0 < h2.old.0 {
        assert(seed == h1.old);
        assert(seed.sp_join(h1.old) == h1.old);
        assert(t == sp_absorb(h1.old, Some(h1.new), None, Seq::<Hunk>::empty(), bh));
        assert(h2.old.sp_touches(h1.old));
        assert(h1.old.sp_join(h2.old) == region);
        assert(t == sp_absorb(
            region,
            Some(h1.new),
            Some(h2.new),
            Seq::<Hunk>::empty(),
            Seq::<Hunk>::empty(),
        ));
        assert(t == (
            region,
            Some(h1.new),
            Some(h2.new),
            Seq::<Hunk>::empty(),
            Seq::<Hunk>::empty(),
        ));
    } else {
        assert(seed == h2.old);
        assert(h1.old.sp_touches(h2.old));
        assert(t == sp_absorb(h2.old.sp_join(h1.old), Some(h1.new), None, Seq::<Hunk>::empty(), bh));
        assert(h2.old.sp_join(h1.old) == region);
        lemma_touches_widen(h2.old, h2.old, region);
        assert(t == sp_absorb(
            region,
            Some(h1.new),
            Some(h2.new),
            Seq::<Hunk>::empty(),
            Seq::<Hunk>::empty(),
        ));
        assert(t == (
            region,
            Some(h1.new),
            Some(h2.new),
            Seq::<Hunk>::empty(),
            Seq::<Hunk>::empty(),
        ));
    }
    assert(t.3.len() + t.4.len() < uh.len() + bh.len());
    let block = marker_open() + sp_cat_range(ul, h1.new.0 as int, h1.new.1 as int) + marker_mid()
        + sp_cat_range(bl, h2.new.0 as int, h2.new.1 as int) + marker_close();
    assert(sp_block(t.1, t.2, ul, bl) == block);
    assert(sp_merge(ol, ul, bl, t.3, t.4, region.1 as int) == sp_cat_range(
        ol,
        region.1 as int,
        ol.len() as int,
    ));
    assert(sp_merge(ol, ul, bl, uh, bh, 0) == sp_cat_range(ol, 0, region.0 as int) + block
        + sp_cat_range(ol, region.1 as int, ol.len() as int));
}

/// Non-overlapping independent edits both survive, unconflicted: with one
/// hunk per side whose original ranges do not touch, the merge emits the
/// earlier side's replacement lines and the later side's replacement lines in
/// original order, with the untouched original lines between and around them
/// and no conflict markers.
pub proof fn lemma_independent_edits(
    ol: Seq<Seq<u8>>,
    ul: Seq<Seq<u8>>,
    bl: Seq<Seq<u8>>,
    h1: Hunk,
    h2: Hunk,
)
    requires
        sp_hunks_wf(seq![h1], ol.len() as int, ul.len() as int),
        sp_hunks_wf(seq![h2], ol.len() as int, bl.len() as int),
        !h1.old.sp_touches(h2.old),
        h1.old.0 <= h2.old.0,
    ensures
        sp_merge(ol, ul, bl, seq![h1], seq![h2], 0) == sp_cat_range(ol, 0, h1.old.0 as int)
            + sp_cat_range(ul, h1.new.0 as int, h1.new.1 as int) + sp_cat_range(
            ol,
            h1.old.1 as int,
            h2.old.0 as int,
        ) + sp_cat_range(bl, h2.new.0 as int, h2.new.1 as int) + sp_cat_range(
            ol,
            h2.old.1 as int,
            ol.len() as int,
        ),
{
    let uh = seq![h1];
    let bh = seq![h2];
    assert(uh[0] == h1 && bh[0] == h2);
    assert(h1.old.wf() && h2.old.wf());
    assert(uh.drop_first() =~= Seq::<Hunk>::empty());
    assert(bh.drop_first() =~= Seq::<Hunk>::empty());
    assert(h2.old.0 > h1.old.1 + 1);
    let seed = sp_seed(uh, bh);
    assert(seed == h1.old);
    assert(seed.sp_join(h1.old) == h1.old);
    let t = sp_absorb(seed, None, None, uh, bh);
    assert(!h2.old.sp_touches(h1.old));
    assert(t == sp_absorb(h1.old, Some(h1.new), None, Seq::<Hunk>::empty(), bh));
    assert(t == (h1.old, Some(h1.new), None::<Range>, Seq::<Hunk>::empty(), bh));
    assert(t.0 == h1.old);
    assert(t.3.len() + t.4.len() < uh.len() + bh.len());
    assert(sp_block(t.1, t.2, ul, bl) == sp_cat_range(ul, h1.new.0 as int, h1.new.1 as int));
    // The second region holds the branch hunk alone.
    let seed2 = sp_seed(Seq::<Hunk>::empty(), bh);
    assert(seed2 == h2.old);
    let t2 = sp_absorb(seed2, None, None, Seq::<Hunk>::empty(), bh);
    assert(seed2.sp_join(h2.old) == h2.old);
    assert(t2 == sp_absorb(h2.old, None, Some(h2.new), Seq::<Hunk>::empty(), Seq::<Hunk>::empty()));
    assert(t2 == (h2.old, None::<Range>, Some(h2.new), Seq::<Hunk>::empty(), Seq::<Hunk>::empty()));
    assert(t2.0 == h2.old);
    assert(sp_block(t2.1, t2.2, ul, bl) == sp_cat_range(bl, h2.new.0 as int, h2.new.1 as int));
    assert(sp_merge(ol, ul, bl, Seq::<Hunk>::empty(), Seq::<Hunk>::empty(), h2.old.1 as int)
        == sp_cat_range(ol, h2.old.1 as int, ol.len() as int));
    assert(sp_merge(ol, ul, bl, Seq::<Hunk>::empty(), bh, h1.old.1 as int) == sp_cat_range(
        ol,
        h1.old.1 as int,
        h2.old.0 as int,
    ) + sp_cat_range(bl, h2.new.0 as int, h2.new.1 as int) + sp_cat_range(
        ol,
        h2.old.1 as int,
        ol.len() as int,
    ));
    let a = sp_cat_range(ol, 0, h1.old.0 as int);
    let b = sp_cat_range(ul, h1.new.0 as int, h1.new.1 as int);
    let c = sp_cat_range(ol, h1.old.1 as int, h2.old.0 as int);
    let d = sp_cat_range(bl, h2.new.0 as int, h2.new.1 as int);
    let e = sp_cat_range(ol, h2.old.1 as int, ol.len() as int);
    assert(sp_merge(ol, ul, bl, uh, bh, 0) == a + b + (c + d + e));
    assert(a + b + (c + d + e) =~= a + b + c + d + e);
}

/// The mirrored case of independent edits: the branch side's hunk comes
/// earlier in the original, so its replacement lines are emitted first, the
/// upstream side's after — still with no conflict markers and nothing lost.
pub proof fn lemma_independent_edits_branch_first(
    ol: Seq<Seq<u8>>,
    ul: Seq<Seq<u8>>,
    bl: Seq<Seq<u8>>,
    h1: Hunk,
    h2: Hunk,
)
    requires
        sp_hunks_wf(seq![h1], ol.len() as int, ul.len() as int),
        sp_hunks_wf(seq![h2], ol.len() as int, bl.len() as int),
        !h1.old.sp_touches(h2.old),
        h2.old.0 <= h1.old.0,
    ensures
        sp_merge(ol, ul, bl, seq![h1], seq![h2], 0) == sp_cat_range(ol, 0, h2.old.0 as int)
            + sp_cat_range(bl, h2.new.0 as int, h2.new.1 as int) + sp_cat_range(
            ol,
            h2.old.1 as int,
            h1.old.0 as int,
        ) + sp_cat_range(ul, h1.new.0 as int, h1.new.1 as int) + sp_cat_range(
            ol,
            h1.old.1 as int,
            ol.len() as int,
        ),
{
    let uh = seq![h1];
    let bh = seq![h2];
    assert(uh[0] == h1 && bh[0] == h2);
    assert(h1.old.wf() && h2.old.wf());
    assert(uh.drop_first() =~= Seq::<Hunk>::empty());
    assert(bh.drop_first() =~= Seq::<Hunk>::empty());
    assert(h1.old.0 > h2.old.1 + 1);
    let seed = sp_seed(uh, bh);
    assert(seed == h2.old);
    assert(seed.sp_join(h2.old) == h2.old);
    let t = sp_absorb(seed, None, None, uh, bh);
    assert(!h1.old.sp_touches(h2.old));
    assert(t == sp_absorb(h2.old, None, Some(h2.new), uh, Seq::<Hunk>::empty()));
    assert(t == (h2.old, None::<Range>, Some(h2.new), uh, Seq::<Hunk>::empty()));
    assert(t.3.len() + t.4.len() < uh.len() + bh.len());
    assert(sp_block(t.1, t.2, ul, bl) == sp_cat_range(bl, h2.new.0 as int, h2.new.1 as int));
    // The second region holds the upstream hunk alone.
    let seed2 = sp_seed(uh, Seq::<Hunk>::empty());
    assert(seed2 == h1.old);
    let t2 = sp_absorb(seed2, None, None, uh, Seq::<Hunk>::empty());
    assert(seed2.sp_join(h1.old) == h1.old);
    assert(t2 == sp_absorb(h1.old, Some(h1.new), None, Seq::<Hunk>::empty(), Seq::<Hunk>::empty()));
    assert(t2 == (h1.old, Some(h1.new), None::<Range>, Seq::<Hunk>::empty(), Seq::<Hunk>::empty()));
    assert(sp_block(t2.1, t2.2, ul, bl) == sp_cat_range(ul, h1.new.0 as int, h1.new.1 as int));
    assert(sp_merge(ol, ul, bl, Seq::<Hunk>::empty(), Seq::<Hunk>::empty(), h1.old.1 as int)
        == sp_cat_range(ol, h1.old.1 as int, ol.len() as int));
    assert(sp_merge(ol, ul, bl, uh, Seq::<Hunk>::empty(), h2.old.1 as int) == sp_cat_range(
        ol,
        h2.old.1 as int,
        h1.old.0 as int,
    ) + sp_cat_range(ul, h1.new.0 as int, h1.new.1 as int) + sp_cat_range(
        ol,
        h1.old.1 as int,
        ol.len() as int,
    ));
    let a = sp_cat_range(ol, 0, h2.old.0 as int);
    let b = sp_cat_range(bl, h2.new.0 as int, h2.new.1 as int);
    let c = sp_cat_range(ol, h2.old.1 as int, h1.old.0 as int);
    let d = sp_cat_range(ul, h1.new.0 as int, h1.new.1 as int);
    let e = sp_cat_range(ol, h1.old.1 as int, ol.len() as int);
    assert(sp_merge(ol, ul, bl, uh, bh, 0) == a + b + (c + d + e));
    assert(a + b + (c + d + e) =~= a + b + c + d + e);
}

} // verus!
