//! Plain-text summaries of a branch's position against the base: how many
//! commits each side is past the fork point and the latest message, drawn
//! with braille dot runs for long stretches. The backend walking lives with
//! the caller; everything here is text from plain values.

use vstd::prelude::*;
use vstd::string::StrSliceExecFns;

use crate::save::{sp_trim, trim_message};

verus! {

/// One branch's side of the fork diagram.
#[derive(Debug)]
pub struct BranchSummary {
    pub name: String,
    pub latest_message: Option<String>,
    pub commit_count: usize,
}

/// The decimal digit character for a value below ten.
pub open spec fn sp_digit(d: nat) -> char {
    if d == 0 {
        '0'
    } else if d == 1 {
        '1'
    } else if d == 2 {
        '2'
    } else if d == 3 {
        '3'
    } else if d == 4 {
        '4'
    } else if d == 5 {
        '5'
    } else if d == 6 {
        '6'
    } else if d == 7 {
        '7'
    } else if d == 8 {
        '8'
    } else {
        '9'
    }
}

/// The decimal spelling of a number, most significant digit first.
pub open spec fn sp_decimal(n: nat) -> Seq<char>
    decreases n,
{
    if n < 10 {
        seq![sp_digit(n)]
    } else {
        sp_decimal(n / 10) + seq![sp_digit(n % 10)]
    }
}

fn digit_str(d: usize) -> (r: &'static str)
    requires
        d < 10,
    ensures
        r@ == seq![sp_digit(d as nat)],
{
    proof {
        reveal_strlit("0");
        reveal_strlit("1");
        reveal_strlit("2");
        reveal_strlit("3");
        reveal_strlit("4");
        reveal_strlit("5");
        reveal_strlit("6");
        reveal_strlit("7");
        reveal_strlit("8");
        reveal_strlit("9");
    }
    if d == 0 {
        proof {
            assert("0"@ =~= seq![sp_digit(d as nat)]);
        }
        "0"
    } else if d == 1 {
        proof {
            assert("1"@ =~= seq![sp_digit(d as nat)]);
        }
        "1"
    } else if d == 2 {
        proof {
            assert("2"@ =~= seq![sp_digit(d as nat)]);
        }
        "2"
    } else if d == 3 {
        proof {
            assert("3"@ =~= seq![sp_digit(d as nat)]);
        }
        "3"
    } else if d == 4 {
        proof {
            assert("4"@ =~= seq![sp_digit(d as nat)]);
        }
        "4"
    } else if d == 5 {
        proof {
            assert("5"@ =~= seq![sp_digit(d as nat)]);
        }
        "5"
    } else if d == 6 {
        proof {
            assert("6"@ =~= seq![sp_digit(d as nat)]);
        }
        "6"
    } else if d == 7 {
        proof {
            assert("7"@ =~= seq![sp_digit(d as nat)]);
        }
        "7"
    } else if d == 8 {
        proof {
            assert("8"@ =~= seq![sp_digit(d as nat)]);
        }
        "8"
    } else {
        proof {
            assert("9"@ =~= seq![sp_digit(d as nat)]);
        }
        "9"
    }
}

/// Spells a number in decimal.
pub fn usize_to_string(n: usize) -> (r: String)
    ensures
        r@ == sp_decimal(n as nat),
    decreases n,
{
    let d: usize = n % 10;
    if n < 10 {
        digit_str(d).to_owned()
    } else {
        let mut s: String = usize_to_string(n / 10);
        s.append(digit_str(d));
        s
    }
}

/// The braille cell for a partial run of dots, one to five.
pub open spec fn sp_partial_dots(d: nat) -> char {
    if d == 1 {
        '\u{2801}'
    } else if d == 2 {
        '\u{2803}'
    } else if d == 3 {
        '\u{2807}'
    } else if d == 4 {
        '\u{280f}'
    } else {
        '\u{281f}'
    }
}

/// A count drawn as braille dots, six to a full cell; a count too long to
/// draw becomes its decimal spelling between full cells.
pub open spec fn sp_many_dots(count: nat) -> Seq<char> {
    if count > 24 {
        seq!['\u{283f}'] + sp_decimal(count) + seq!['\u{283f}']
    } else {
        Seq::new(count / 6, |i: int| '\u{283f}') + (if count % 6 == 0 {
            Seq::empty()
        } else {
            seq![sp_partial_dots(count % 6)]
        })
    }
}

/// Draws a commit count as braille dots.
pub fn create_many_dots(count: usize) -> (r: String)
    ensures
        r@ == sp_many_dots(count as nat),
{
    proof {
        reveal_strlit("\u{283f}");
        reveal_strlit("\u{2801}");
        reveal_strlit("\u{2803}");
        reveal_strlit("\u{2807}");
        reveal_strlit("\u{280f}");
        reveal_strlit("\u{281f}");
    }
    if count > 24 {
        let mut s: String = "\u{283f}".to_owned();
        let digits: String = usize_to_string(count);
        s.append(digits.as_str());
        s.append("\u{283f}");
        proof {
            assert("\u{283f}"@ =~= seq!['\u{283f}']);
            assert(s@ =~= sp_many_dots(count as nat));
        }
        return s;
    }
    let full_count: usize = count / 6;
    let partial_count: usize = count % 6;
    let mut s: String = String::new();
    let mut k: usize = 0;
    proof {
        assert("\u{283f}"@ =~= seq!['\u{283f}']);
    }
    while k < full_count
        invariant
            k <= full_count,
            s@ =~= Seq::new(k as nat, |i: int| '\u{283f}'),
            "\u{283f}"@ =~= seq!['\u{283f}'],
        decreases full_count - k,
    {
        s.append("\u{283f}");
        proof {
            assert(s@ =~= Seq::new(k as nat + 1, |i: int| '\u{283f}'));
        }
        k += 1;
    }
    if partial_count == 1 {
        s.append("\u{2801}");
        proof {
            assert("\u{2801}"@ =~= seq!['\u{2801}']);
        }
    } else if partial_count == 2 {
        s.append("\u{2803}");
        proof {
            assert("\u{2803}"@ =~= seq!['\u{2803}']);
        }
    } else if partial_count == 3 {
        s.append("\u{2807}");
        proof {
            assert("\u{2807}"@ =~= seq!['\u{2807}']);
        }
    } else if partial_count == 4 {
        s.append("\u{280f}");
        proof {
            assert("\u{280f}"@ =~= seq!['\u{280f}']);
        }
    } else if partial_count == 5 {
        s.append("\u{281f}");
        proof {
            assert("\u{281f}"@ =~= seq!['\u{281f}']);
        }
    }
    proof {
        assert(s@ =~= sp_many_dots(count as nat));
    }
    s
}

/// The bracketed latest-message tag beside a branch's run of commits: the
/// message cut to its first twenty-five characters and trimmed of
/// whitespace, or nothing.
pub open spec fn sp_message_part(m: Option<String>) -> Seq<char> {
    match m {
        Some(s) => seq!['<', '['] + sp_trim(
            if s@.len() <= 25 {
                s@
            } else {
                s@.take(25)
            },
        ) + seq![']'],
        None => Seq::empty(),
    }
}

/// A branch's run of commits past the fork point, drawn as circles with the
/// latest message tagged on the last: nothing for no commits, one to three
/// circles drawn plainly, and longer runs elided to a count between the
/// first and last circle.
pub open spec fn sp_post_fork(count: nat, m: Option<String>) -> Seq<char> {
    if count == 0 {
        Seq::empty()
    } else if count == 1 {
        seq!['o'] + sp_message_part(m)
    } else if count == 2 {
        seq!['o', ' ', '\u{2500}', ' ', 'o'] + sp_message_part(m)
    } else if count == 3 {
        seq!['o', ' ', '\u{2500}', ' ', 'o', ' ', '\u{2500}', ' ', 'o'] + sp_message_part(m)
    } else {
        seq!['o', ' ', '\u{2500}', ' ', '<'] + sp_decimal((count - 2) as nat) + seq![
            '>',
            ' ',
            '\u{2500}',
            ' ',
            'o',
        ] + sp_message_part(m)
    }
}

fn message_part(m: &Option<String>) -> (r: String)
    ensures
        r@ == sp_message_part(*m),
{
    proof {
        reveal_strlit("<[");
        reveal_strlit("]");
    }
    match m {
        Some(s) => {
            let len: usize = s.as_str().unicode_len();
            let cut: usize = if len <= 25 {
                len
            } else {
                25
            };
            let body: String = s.as_str().substring_char(0, cut).to_owned();
            let trimmed: String = trim_message(&body);
            let mut out: String = "<[".to_owned();
            out.append(trimmed.as_str());
            out.append("]");
            proof {
                assert("<["@ =~= seq!['<', '[']);
                assert("]"@ =~= seq![']']);
                if s@.len() <= 25 {
                    assert(body@ =~= s@);
                } else {
                    assert(body@ =~= s@.take(25));
                }
                assert(out@ =~= sp_message_part(*m));
            }
            out
        },
        None => String::new(),
    }
}

/// Draws one branch's commits past the fork point with its latest message.
pub fn get_post_fork_commits(info: &BranchSummary) -> (r: String)
    ensures
        r@ == sp_post_fork(info.commit_count as nat, info.latest_message),
{
    proof {
        reveal_strlit("o");
        reveal_strlit("o \u{2500} o");
        reveal_strlit("o \u{2500} o \u{2500} o");
        reveal_strlit("o \u{2500} <");
        reveal_strlit("> \u{2500} o");
    }
    let part: String = message_part(&info.latest_message);
    if info.commit_count == 0 {
        String::new()
    } else if info.commit_count == 1 {
        let mut s: String = "o".to_owned();
        s.append(part.as_str());
        proof {
            assert("o"@ =~= seq!['o']);
            assert(s@ =~= sp_post_fork(info.commit_count as nat, info.latest_message));
        }
        s
    } else if info.commit_count == 2 {
        let mut s: String = "o \u{2500} o".to_owned();
        s.append(part.as_str());
        proof {
            assert("o \u{2500} o"@ =~= seq!['o', ' ', '\u{2500}', ' ', 'o']);
            assert(s@ =~= sp_post_fork(info.commit_count as nat, info.latest_message));
        }
        s
    } else if info.commit_count == 3 {
        let mut s: String = "o \u{2500} o \u{2500} o".to_owned();
        s.append(part.as_str());
        proof {
            assert("o \u{2500} o \u{2500} o"@ =~= seq![
                'o',
                ' ',
                '\u{2500}',
                ' ',
                'o',
                ' ',
                '\u{2500}',
                ' ',
                'o',
            ]);
            assert(s@ =~= sp_post_fork(info.commit_count as nat, info.latest_message));
        }
        s
    } else {
        let mut s: String = "o \u{2500} <".to_owned();
        let middle: String = usize_to_string(info.commit_count - 2);
        s.append(middle.as_str());
        s.append("> \u{2500} o");
        s.append(part.as_str());
        proof {
            assert("o \u{2500} <"@ =~= seq!['o', ' ', '\u{2500}', ' ', '<']);
            assert("> \u{2500} o"@ =~= seq!['>', ' ', '\u{2500}', ' ', 'o']);
            assert(s@ =~= sp_post_fork(info.commit_count as nat, info.latest_message));
        }
        s
    }
}

} // verus!
