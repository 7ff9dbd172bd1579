//! Choosing the message for a squashed branch: the caller's own words win;
//! otherwise the walk down from the tip to the fork point supplies the first
//! message that is not a plain save; and a branch of nothing but saves gets
//! a default.

use vstd::prelude::*;

use crate::error::Fail;
use crate::save::{resolve_commit_message, sp_char_views, sp_join_spaces, sp_trim};

verus! {

/// The default save message, which squashing looks past.
pub open spec fn sp_save_message() -> Seq<char> {
    seq!['S', 'a', 'v', 'e']
}

/// The default squash message, when every commit below the tip is a save.
pub open spec fn sp_squash_message() -> Seq<char> {
    seq!['S', 'q', 'u', 'a', 's', 'h']
}

/// The first message in tip-to-fork order that is not the plain save
/// message; a commit whose message cannot be read fails the walk.
pub open spec fn sp_first_squash_message(chain: Seq<Option<String>>) -> Result<Seq<char>, ()>
    decreases chain.len(),
{
    if chain.len() == 0 {
        Ok(sp_squash_message())
    } else {
        match chain[0] {
            None => Err(()),
            Some(m) => {
                if m@ == sp_save_message() {
                    sp_first_squash_message(chain.drop_first())
                } else {
                    Ok(m@)
                }
            },
        }
    }
}

/// Picks the squashed commit's message. `chain_messages` holds the message
/// of each commit from the branch tip down to, and not including, the fork
/// point; `None` stands for a message the backend could not read.
pub fn resolve_squashed_message(message: &Vec<String>, chain_messages: &Vec<Option<String>>) -> (r:
    Result<String, Fail>)
    ensures
        sp_trim(sp_join_spaces(sp_char_views(message@))).len() > 0 ==> (r matches Ok(m) && m@
            == sp_trim(sp_join_spaces(sp_char_views(message@)))),
        sp_trim(sp_join_spaces(sp_char_views(message@))).len() == 0 ==> match sp_first_squash_message(
            chain_messages@,
        ) {
            Ok(s) => r matches Ok(m) && m@ == s,
            Err(u) => r matches Err(f) && f is InvalidMessage,
        },
{
    if let Some(m) = resolve_commit_message(message) {
        return Ok(m);
    }
    let save_msg: String = save_message();
    let mut i: usize = 0;
    proof {
        assert(chain_messages@.skip(0) =~= chain_messages@);
    }
    while i < chain_messages.len()
        invariant
            i <= chain_messages@.len(),
            save_msg@ == sp_save_message(),
            sp_trim(sp_join_spaces(sp_char_views(message@))).len() == 0,
            sp_first_squash_message(chain_messages@) == sp_first_squash_message(
                chain_messages@.skip(i as int),
            ),
        decreases chain_messages@.len() - i,
    {
        proof {
            assert(chain_messages@.skip(i as int)[0] == chain_messages@[i as int]);
            assert(chain_messages@.skip(i as int).drop_first() =~= chain_messages@.skip(
                i as int + 1,
            ));
        }
        match &chain_messages[i] {
            None => {
                return Err(Fail::InvalidMessage);
            },
            Some(m) => {
                if !m.eq(&save_msg) {
                    return Ok(m.clone());
                }
            },
        }
        i += 1;
    }
    Ok(squash_message())
}

/// The plain save message as text.
pub fn save_message() -> (r: String)
    ensures
        r@ == sp_save_message(),
{
    let s: &str = "Save";
    proof {
        reveal_strlit("Save");
        assert(s@ =~= sp_save_message());
    }
    s.to_owned()
}

/// The default squash message as text.
pub fn squash_message() -> (r: String)
    ensures
        r@ == sp_squash_message(),
{
    let s: &str = "Squash";
    proof {
        reveal_strlit("Squash");
        assert(s@ =~= sp_squash_message());
    }
    s.to_owned()
}

} // verus!
