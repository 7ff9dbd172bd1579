//! Commit-message handling and the temporary-commit bracketing discipline.
//! An operation that must see a clean tree is bracketed: uncommitted work is
//! first saved as an ordinary single-parent commit whose message carries a
//! reserved prefix, and afterwards the branch is reset to the first commit
//! below the tip that is not such a save, restoring the pre-bracket state
//! however deeply brackets were nested.

use vstd::prelude::*;
use vstd::string::StrSliceExecFns;

verus! {

/// Whitespace, as commit-message trimming understands it: the Unicode
/// White_Space characters, so that trimming removes exactly what a caller
/// would call blank.
pub open spec fn sp_is_ws_char(c: char) -> bool {
    c == ' ' || c == '\t' || c == '\n' || c == '\u{000b}' || c == '\u{000c}' || c == '\r'
        || c == '\u{0085}' || c == '\u{00a0}' || c == '\u{1680}' || c == '\u{2000}'
        || c == '\u{2001}' || c == '\u{2002}' || c == '\u{2003}' || c == '\u{2004}'
        || c == '\u{2005}' || c == '\u{2006}' || c == '\u{2007}' || c == '\u{2008}'
        || c == '\u{2009}' || c == '\u{200a}' || c == '\u{2028}' || c == '\u{2029}'
        || c == '\u{202f}' || c == '\u{205f}' || c == '\u{3000}'
}

/// Whether a character is whitespace in the sense the trim removes.
pub fn is_ws_char(c: char) -> (r: bool)
    ensures
        r == sp_is_ws_char(c),
{
    c == ' ' || c == '\t' || c == '\n' || c == '\u{000b}' || c == '\u{000c}' || c == '\r'
        || c == '\u{0085}' || c == '\u{00a0}' || c == '\u{1680}' || c == '\u{2000}'
        || c == '\u{2001}' || c == '\u{2002}' || c == '\u{2003}' || c == '\u{2004}'
        || c == '\u{2005}' || c == '\u{2006}' || c == '\u{2007}' || c == '\u{2008}'
        || c == '\u{2009}' || c == '\u{200a}' || c == '\u{2028}' || c == '\u{2029}'
        || c == '\u{202f}' || c == '\u{205f}' || c == '\u{3000}'
}

/// The characters left after removing leading whitespace.
pub open spec fn sp_trim_start(s: Seq<char>) -> Seq<char>
    decreases s.len(),
{
    if s.len() > 0 && sp_is_ws_char(s[0]) {
        sp_trim_start(s.drop_first())
    } else {
        s
    }
}

/// The characters left after removing trailing whitespace.
pub open spec fn sp_trim_end(s: Seq<char>) -> Seq<char>
    decreases s.len(),
{
    if s.len() > 0 && sp_is_ws_char(s.last()) {
        sp_trim_end(s.drop_last())
    } else {
        s
    }
}

/// The characters left after removing whitespace at both ends.
pub open spec fn sp_trim(s: Seq<char>) -> Seq<char> {
    sp_trim_end(sp_trim_start(s))
}

/// The rest of a space-joined sequence: a space before each further part.
pub open spec fn sp_join_rest(parts: Seq<Seq<char>>) -> Seq<char>
    decreases parts.len(),
{
    if parts.len() == 0 {
        Seq::empty()
    } else {
        seq![' '] + parts[0] + sp_join_rest(parts.drop_first())
    }
}

/// The parts joined with single spaces.
pub open spec fn sp_join_spaces(parts: Seq<Seq<char>>) -> Seq<char> {
    if parts.len() == 0 {
        Seq::empty()
    } else {
        parts[0] + sp_join_rest(parts.drop_first())
    }
}

/// The view of each part of a message.
pub open spec fn sp_char_views(parts: Seq<String>) -> Seq<Seq<char>> {
    Seq::new(parts.len(), |i: int| parts[i]@)
}

proof fn lemma_trim_start_skip(s: Seq<char>, i: int)
    requires
        0 <= i <= s.len(),
        forall|k: int| 0 <= k < i ==> sp_is_ws_char(s[k]),
    ensures
        sp_trim_start(s) == sp_trim_start(s.skip(i)),
    decreases i,
{
    if i > 0 {
        assert(s.drop_first() =~= s.skip(1));
        assert(s.skip(1).skip(i - 1) =~= s.skip(i));
        lemma_trim_start_skip(s.skip(1), i - 1);
    } else {
        assert(s.skip(0) =~= s);
    }
}

proof fn lemma_trim_end_take(s: Seq<char>, j: int)
    requires
        0 <= j <= s.len(),
        forall|k: int| j <= k < s.len() ==> sp_is_ws_char(s[k]),
    ensures
        sp_trim_end(s) == sp_trim_end(s.take(j)),
    decreases s.len() - j,
{
    if j < s.len() {
        assert(s.drop_last() =~= s.take(s.len() - 1));
        lemma_trim_end_take(s.take(s.len() - 1), j);
        assert(s.take(s.len() - 1).take(j) =~= s.take(j));
    } else {
        assert(s.take(j) =~= s);
    }
}

/// Trims whitespace from both ends of a message.
pub fn trim_message(s: &String) -> (r: String)
    ensures
        r@ == sp_trim(s@),
{
    let n: usize = s.as_str().unicode_len();
    let mut i: usize = 0;
    while i < n
        invariant
            i <= n,
            n == s@.len(),
            forall|k: int| 0 <= k < i ==> sp_is_ws_char(s@[k]),
        ensures
            i == n || !sp_is_ws_char(s@[i as int]),
        decreases n - i,
    {
        let c: char = s.as_str().get_char(i);
        if !is_ws_char(c) {
            break ;
        }
        i += 1;
    }
    proof {
        lemma_trim_start_skip(s@, i as int);
        assert(sp_trim_start(s@.skip(i as int)) == s@.skip(i as int));
    }
    let ghost t = s@.skip(i as int);
    let mut j: usize = n - i;
    while j > 0
        invariant
            j <= n - i,
            i <= n,
            n == s@.len(),
            t == s@.skip(i as int),
            forall|k: int| j <= k < t.len() ==> sp_is_ws_char(t[k]),
        ensures
            j == 0 || !sp_is_ws_char(t[j - 1]),
        decreases j,
    {
        let c: char = s.as_str().get_char(i + j - 1);
        if !is_ws_char(c) {
            break ;
        }
        j -= 1;
    }
    proof {
        lemma_trim_end_take(t, j as int);
        assert(sp_trim_end(t.take(j as int)) == t.take(j as int));
        assert(t.take(j as int) =~= s@.subrange(i as int, i as int + j as int));
    }
    let out: &str = s.as_str().substring_char(i, i + j);
    out.to_owned()
}

/// Joins message parts with single spaces and trims the result: the commit
/// message the caller asked for, or nothing when only whitespace was given.
pub fn resolve_commit_message(message_parts: &Vec<String>) -> (r: Option<String>)
    ensures
        sp_trim(sp_join_spaces(sp_char_views(message_parts@))).len() == 0 <==> r is None,
        r matches Some(m) ==> m@ == sp_trim(sp_join_spaces(sp_char_views(message_parts@))),
{
    let ghost parts = sp_char_views(message_parts@);
    let mut joined: String = String::new();
    if message_parts.len() > 0 {
        joined.append(message_parts[0].as_str());
        let mut k: usize = 1;
        proof {
            assert(parts.skip(1) =~= sp_char_views(message_parts@).skip(1));
            assert(sp_join_spaces(parts) =~= parts[0] + sp_join_rest(parts.skip(1)));
        }
        while k < message_parts.len()
            invariant
                1 <= k <= message_parts@.len(),
                parts == sp_char_views(message_parts@),
                sp_join_spaces(parts) =~= joined@ + sp_join_rest(parts.skip(k as int)),
            decreases message_parts@.len() - k,
        {
            let ghost j0 = joined@;
            joined.append(" ");
            joined.append(message_parts[k].as_str());
            proof {
                reveal_strlit(" ");
                assert(" "@ =~= seq![' ']);
                assert(parts.skip(k as int)[0] == parts[k as int]);
                assert(parts.skip(k as int).drop_first() =~= parts.skip(k as int + 1));
                assert(sp_join_rest(parts.skip(k as int)) =~= seq![' '] + parts[k as int]
                    + sp_join_rest(parts.skip(k as int + 1)));
                assert(joined@ =~= j0 + seq![' '] + parts[k as int]);
                assert(joined@ + sp_join_rest(parts.skip(k as int + 1)) =~= j0 + sp_join_rest(
                    parts.skip(k as int),
                ));
            }
            k += 1;
        }
        proof {
            assert(sp_join_rest(parts.skip(k as int)).len() == 0);
            assert(sp_join_spaces(parts) =~= joined@);
        }
    } else {
        proof {
            assert(sp_join_spaces(parts) =~= Seq::<char>::empty());
        }
    }
    let trimmed: String = trim_message(&joined);
    if trimmed.as_str().unicode_len() == 0 {
        proof {
            assert(sp_trim(sp_join_spaces(parts)) =~= Seq::<char>::empty());
        }
        None
    } else {
        Some(trimmed)
    }
}

/// The reserved commit-message prefix that marks a temporary save. It must
/// never collide with a user-authored message, which is why detection is an
/// exact prefix match on it.
pub open spec fn sp_temp_prefix() -> Seq<char> {
    seq!['i', 't', 'c', 'h', '-', 't', 'e', 'm', 'p', ':']
}

/// The reserved prefix as text.
pub fn temp_commit_prefix() -> (r: String)
    ensures
        r@ == sp_temp_prefix(),
{
    let s: &str = "itch-temp:";
    proof {
        reveal_strlit("itch-temp:");
        assert(s@ =~= sp_temp_prefix());
    }
    s.to_owned()
}

/// A message marks a temporary save when it starts with the reserved prefix.
pub open spec fn sp_is_temp_message(m: Seq<char>) -> bool {
    m.len() >= sp_temp_prefix().len() && m.subrange(0, sp_temp_prefix().len() as int)
        == sp_temp_prefix()
}

/// Whether a commit is a temporary save: a single-parent commit whose
/// message starts with the reserved prefix, exactly.
pub fn is_temp_commit(message: &String, parent_count: usize) -> (r: bool)
    ensures
        r == (parent_count == 1 && sp_is_temp_message(message@)),
{
    if parent_count != 1 {
        return false;
    }
    let prefix: String = temp_commit_prefix();
    let plen: usize = prefix.as_str().unicode_len();
    let mlen: usize = message.as_str().unicode_len();
    if mlen < plen {
        return false;
    }
    let mut i: usize = 0;
    while i < plen
        invariant
            i <= plen,
            plen == sp_temp_prefix().len(),
            mlen == message@.len(),
            mlen >= plen,
            prefix@ == sp_temp_prefix(),
            forall|k: int| 0 <= k < i ==> message@[k] == sp_temp_prefix()[k],
        decreases plen - i,
    {
        if message.as_str().get_char(i) != prefix.as_str().get_char(i) {
            return false;
        }
        i += 1;
    }
    proof {
        assert(message@.subrange(0, sp_temp_prefix().len() as int) =~= sp_temp_prefix());
    }
    true
}

/// The message of the temporary save created on bracket entry: the reserved
/// prefix, a space, and the caller's note. Such a message always reads as a
/// temporary save.
pub fn temp_commit_message(note: &String) -> (r: String)
    ensures
        r@ == sp_temp_prefix() + seq![' '] + note@,
        sp_is_temp_message(r@),
{
    let mut s: String = temp_commit_prefix();
    s.append(" ");
    s.append(note.as_str());
    proof {
        reveal_strlit(" ");
        assert(" "@ =~= seq![' ']);
        assert(s@ =~= sp_temp_prefix() + seq![' '] + note@);
        assert(s@.subrange(0, sp_temp_prefix().len() as int) =~= sp_temp_prefix());
    }
    s
}

/// What bracketing needs to know of one commit: whether it has exactly one
/// parent and whether its message carries the reserved prefix.
#[derive(Debug, Clone, Copy, PartialEq, Eq, Structural)]
pub struct CommitMeta {
    pub single_parent: bool,
    pub temp_tagged: bool,
}

/// A commit is a temporary save when it is single-parented and tagged.
pub open spec fn sp_is_temp(c: CommitMeta) -> bool {
    c.single_parent && c.temp_tagged
}

/// How many commits the unwind walks from the tip: the index of the first
/// commit, tip first, that is not a temporary save.
pub open spec fn sp_pop_target(chain: Seq<CommitMeta>) -> int
    decreases chain.len(),
{
    if chain.len() == 0 {
        0
    } else if sp_is_temp(chain[0]) {
        1 + sp_pop_target(chain.drop_first())
    } else {
        0
    }
}

/// Walks the parent chain from the tip (index 0) and returns the index of
/// the first commit that is not a temporary save — the commit the bracket
/// unwind resets the branch to.
pub fn pop_target(chain: &Vec<CommitMeta>) -> (r: usize)
    ensures
        r == sp_pop_target(chain@),
        r <= chain@.len(),
        forall|k: int| 0 <= k < r ==> sp_is_temp(#[trigger] chain@[k]),
        r < chain@.len() ==> !sp_is_temp(chain@[r as int]),
{
    let mut i: usize = 0;
    proof {
        assert(chain@.skip(0) =~= chain@);
    }
    while i < chain.len() && chain[i].single_parent && chain[i].temp_tagged
        invariant
            i <= chain@.len(),
            sp_pop_target(chain@) == i + sp_pop_target(chain@.skip(i as int)),
            forall|k: int| 0 <= k < i ==> sp_is_temp(#[trigger] chain@[k]),
        decreases chain@.len() - i,
    {
        proof {
            assert(chain@.skip(i as int)[0] == chain@[i as int]);
            assert(chain@.skip(i as int).drop_first() =~= chain@.skip(i as int + 1));
        }
        i += 1;
    }
    proof {
        if i < chain.len() {
            assert(chain@.skip(i as int)[0] == chain@[i as int]);
        }
        assert(sp_pop_target(chain@.skip(i as int)) == 0);
    }
    i
}

/// Bracketing round-trip: pushing any number of temporary saves onto a tip
/// that is not itself a temporary save, then unwinding, lands exactly on
/// that tip — the branch history carries zero net reserved-prefix commits,
/// however deeply brackets were nested.
pub proof fn lemma_bracket_roundtrip(temps: Seq<CommitMeta>, chain: Seq<CommitMeta>)
    requires
        forall|i: int| 0 <= i < temps.len() ==> sp_is_temp(#[trigger] temps[i]),
        chain.len() > 0 ==> !sp_is_temp(chain[0]),
    ensures
        sp_pop_target(temps + chain) == temps.len(),
    decreases temps.len(),
{
    if temps.len() == 0 {
        assert(temps + chain =~= chain);
    } else {
        assert((temps + chain).drop_first() =~= temps.drop_first() + chain);
        assert((temps + chain)[0] == temps[0]);
        lemma_bracket_roundtrip(temps.drop_first(), chain);
    }
}

} // verus!
