//! Splitting file content into newline-terminated lines and joining line
//! ranges back into content. Content is a byte sequence; a line is a maximal
//! segment ending in a newline byte, except that the final line of content
//! that does not end in a newline has no terminator.

use vstd::prelude::*;

verus! {

/// The newline byte that terminates a line.
pub open spec fn nl() -> u8 {
    10u8
}

/// Length of the first line of `s`: up to and including the first newline,
/// or all of `s` when it holds none.
pub open spec fn first_line_len(s: Seq<u8>) -> int
    decreases s.len(),
{
    if s.len() == 0 {
        0
    } else if s[0] == nl() {
        1
    } else {
        1 + first_line_len(s.drop_first())
    }
}

pub proof fn lemma_first_line_len_bounds(s: Seq<u8>)
    requires
        s.len() > 0,
    ensures
        1 <= first_line_len(s) <= s.len(),
    decreases s.len(),
{
    if s[0] != nl() {
        if s.len() > 1 {
            lemma_first_line_len_bounds(s.drop_first());
        } else {
            assert(first_line_len(s.drop_first()) == 0);
        }
    }
}

/// If the first `j` bytes of `s` hold no newline, the first line runs to the
/// newline at `j`, or to the end of `s` when `j` is the length.
pub proof fn lemma_first_line_len_at(s: Seq<u8>, j: int)
    requires
        0 <= j <= s.len(),
        forall|k: int| 0 <= k < j ==> s[k] != nl(),
        j < s.len() ==> s[j] == nl(),
    ensures
        j < s.len() ==> first_line_len(s) == j + 1,
        j == s.len() ==> first_line_len(s) == j,
    decreases j,
{
    if j > 0 {
        lemma_first_line_len_at(s.drop_first(), j - 1);
    }
}

/// The lines of `s`, each a contiguous subrange, in order.
pub open spec fn sp_lines(s: Seq<u8>) -> Seq<Seq<u8>>
    decreases s.len(),
    via sp_lines_decreases
{
    if s.len() == 0 {
        Seq::empty()
    } else {
        seq![s.subrange(0, first_line_len(s))] + sp_lines(
            s.subrange(first_line_len(s), s.len() as int),
        )
    }
}

#[via_fn]
proof fn sp_lines_decreases(s: Seq<u8>) {
    if s.len() > 0 {
        lemma_first_line_len_bounds(s);
    }
}

/// Concatenation of a sequence of lines back into flat content.
pub open spec fn sp_cat(ls: Seq<Seq<u8>>) -> Seq<u8>
    decreases ls.len(),
{
    if ls.len() == 0 {
        Seq::empty()
    } else {
        ls[0] + sp_cat(ls.drop_first())
    }
}

/// Concatenation of the lines with indices in `[a, b)`.
pub open spec fn sp_cat_range(ls: Seq<Seq<u8>>, a: int, b: int) -> Seq<u8> {
    sp_cat(ls.subrange(a, b))
}

pub proof fn lemma_cat_push(ls: Seq<Seq<u8>>, x: Seq<u8>)
    ensures
        sp_cat(ls.push(x)) == sp_cat(ls) + x,
    decreases ls.len(),
{
    if ls.len() == 0 {
        assert(ls.push(x).drop_first() =~= Seq::<Seq<u8>>::empty());
        assert(sp_cat(Seq::<Seq<u8>>::empty()) =~= Seq::<u8>::empty());
        assert(ls.push(x)[0] =~= x);
        assert(x + Seq::<u8>::empty() =~= x);
        assert(sp_cat(ls.push(x)) =~= x);
        assert(sp_cat(ls) + x =~= x);
    } else {
        assert(ls.push(x).drop_first() =~= ls.drop_first().push(x));
        lemma_cat_push(ls.drop_first(), x);
        assert(sp_cat(ls.push(x)) =~= ls[0] + (sp_cat(ls.drop_first()) + x));
        assert(ls[0] + sp_cat(ls.drop_first()) + x =~= ls[0] + (sp_cat(ls.drop_first()) + x));
    }
}

/// Extending a line window by one line on the right appends that line.
pub proof fn lemma_cat_range_step(ls: Seq<Seq<u8>>, a: int, b: int)
    requires
        0 <= a <= b < ls.len(),
    ensures
        sp_cat_range(ls, a, b + 1) == sp_cat_range(ls, a, b) + ls[b],
{
    assert(ls.subrange(a, b + 1) =~= ls.subrange(a, b).push(ls[b]));
    lemma_cat_push(ls.subrange(a, b), ls[b]);
}

/// Joining the lines of `s` gives back `s` exactly.
pub proof fn lemma_lines_roundtrip(s: Seq<u8>)
    ensures
        sp_cat(sp_lines(s)) == s,
    decreases s.len(),
{
    if s.len() > 0 {
        lemma_first_line_len_bounds(s);
        let n = first_line_len(s);
        let rest = s.subrange(n, s.len() as int);
        lemma_lines_roundtrip(rest);
        assert(sp_lines(s).drop_first() =~= sp_lines(rest));
        assert(sp_cat(sp_lines(s)) =~= s.subrange(0, n) + sp_cat(sp_lines(rest)));
        assert(s.subrange(0, n) + rest =~= s);
    }
}

/// Whitespace bytes that the backend's whitespace-insensitive line
/// comparison disregards.
pub open spec fn is_ws_byte(c: u8) -> bool {
    c == 9 || c == 10 || c == 11 || c == 12 || c == 13 || c == 32
}

/// A line with its whitespace removed.
pub open spec fn sp_strip_ws(l: Seq<u8>) -> Seq<u8> {
    l.filter(|c: u8| !is_ws_byte(c))
}

/// Two contents are whitespace-equal when they have the same lines up to
/// whitespace: equally many lines, pairwise equal after stripping.
pub open spec fn sp_ws_equal(a: Seq<u8>, b: Seq<u8>) -> bool {
    &&& sp_lines(a).len() == sp_lines(b).len()
    &&& forall|i: int|
        0 <= i < sp_lines(a).len() ==> sp_strip_ws(#[trigger] sp_lines(a)[i]) == sp_strip_ws(
            sp_lines(b)[i],
        )
}

/// The view of each element of a vector of lines, as a sequence of sequences.
pub open spec fn sp_views(ls: Seq<Vec<u8>>) -> Seq<Seq<u8>> {
    Seq::new(ls.len(), |i: int| ls[i]@)
}

/// Splits content into its lines. The result's element views are exactly
/// `sp_lines` of the content.
pub fn split_lines(v: &Vec<u8>) -> (r: Vec<Vec<u8>>)
    ensures
        sp_views(r@) == sp_lines(v@),
{
    let mut res: Vec<Vec<u8>> = Vec::new();
    let mut i: usize = 0;
    proof {
        assert(v@.subrange(0, v@.len() as int) =~= v@);
        assert(sp_views(Seq::<Vec<u8>>::empty()) =~= Seq::<Seq<u8>>::empty());
        assert(Seq::<Seq<u8>>::empty() + sp_lines(v@) =~= sp_lines(v@));
    }
    while i < v.len()
        invariant
            i <= v.len(),
            sp_lines(v@) =~= sp_views(res@) + sp_lines(v@.subrange(i as int, v@.len() as int)),
        decreases v.len() - i,
    {
        let ghost tail = v@.subrange(i as int, v@.len() as int);
        let mut j: usize = i;
        while j < v.len() && v[j] != 10u8
            invariant
                i <= j <= v.len(),
                forall|k: int| i <= k < j ==> v@[k] != nl(),
            decreases v.len() - j,
        {
            j += 1;
        }
        let end: usize = if j < v.len() {
            j + 1
        } else {
            j
        };
        let mut line: Vec<u8> = Vec::new();
        let mut k: usize = i;
        while k < end
            invariant
                i <= k <= end <= v.len(),
                line@ =~= v@.subrange(i as int, k as int),
            decreases end - k,
        {
            line.push(v[k]);
            k += 1;
        }
        proof {
            lemma_first_line_len_at(tail, j - i);
            assert(first_line_len(tail) == end - i);
            assert(line@ =~= tail.subrange(0, end - i));
            assert(tail.subrange(end - i, tail.len() as int) =~= v@.subrange(
                end as int,
                v@.len() as int,
            ));
            assert(sp_lines(tail) =~= seq![line@] + sp_lines(
                v@.subrange(end as int, v@.len() as int),
            ));
            assert(sp_views(res@.push(line)) =~= sp_views(res@) + seq![line@]);
            assert((sp_views(res@) + seq![line@]) + sp_lines(
                v@.subrange(end as int, v@.len() as int),
            ) =~= sp_views(res@) + (seq![line@] + sp_lines(
                v@.subrange(end as int, v@.len() as int),
            )));
        }
        res.push(line);
        i = end;
    }
    proof {
        assert(v@.subrange(i as int, v@.len() as int) =~= Seq::<u8>::empty());
        assert(sp_lines(Seq::<u8>::empty()) =~= Seq::<Seq<u8>>::empty());
        assert(sp_views(res@) + Seq::<Seq<u8>>::empty() =~= sp_views(res@));
        assert(sp_views(res@) =~= sp_lines(v@));
    }
    res
}

/// Appends the bytes of `src` to `dst`.
pub fn push_bytes(dst: &mut Vec<u8>, src: &Vec<u8>)
    ensures
        final(dst)@ == old(dst)@ + src@,
{
    let mut k: usize = 0;
    while k < src.len()
        invariant
            k <= src.len(),
            dst@ =~= old(dst)@ + src@.subrange(0, k as int),
        decreases src.len() - k,
    {
        dst.push(src[k]);
        k += 1;
    }
    proof {
        assert(src@.subrange(0, src@.len() as int) =~= src@);
    }
}

/// Appends the lines with indices in `[a, b)` of `lines` to `dst`.
pub fn push_line_range(dst: &mut Vec<u8>, lines: &Vec<Vec<u8>>, a: usize, b: usize)
    requires
        a <= b <= lines.len(),
    ensures
        final(dst)@ == old(dst)@ + sp_cat_range(sp_views(lines@), a as int, b as int),
{
    let ghost ls = sp_views(lines@);
    let mut k: usize = a;
    proof {
        assert(ls.subrange(a as int, a as int) =~= Seq::<Seq<u8>>::empty());
    }
    while k < b
        invariant
            a <= k <= b <= lines.len(),
            ls == sp_views(lines@),
            dst@ =~= old(dst)@ + sp_cat_range(ls, a as int, k as int),
        decreases b - k,
    {
        proof {
            lemma_cat_range_step(ls, a as int, k as int);
            assert(ls[k as int] == lines@[k as int]@);
        }
        let line: &Vec<u8> = &lines[k];
        push_bytes(dst, line);
        k += 1;
    }
}

} // verus!
