//! Folding white space and comments: what may surround the tokens of an
//! address.
//!
//! Every rule is a function of the input and a start position. Its model
//! is a spec function over `Seq<char>`; the executable matcher beside it
//! returns what the model says.

use crate::chars::{blank, ctext, escapable, is_ctext, is_escapable, is_wsp};
use vstd::prelude::*;
use vstd::string::StrSliceExecFns;

verus! {

/// An optional end position, as the models speak of it.
pub open spec fn as_end(r: Option<usize>) -> Option<int> {
    match r {
        Some(e) => Some(e as int),
        None => None,
    }
}

/// The length of the folding unit at `i`: 1 for a blank, 3 for a line
/// break followed by a blank, 0 where neither stands. Folding white space
/// is a run of one or more such units, which covers the current form (an
/// optional fold before a run of blanks) and the obsolete one (several
/// folds in a row).
pub open spec fn fold_unit(s: Seq<char>, i: int) -> int {
    if 0 <= i < s.len() && is_wsp(s[i]) {
        1
    } else if 0 <= i && i + 2 < s.len() && s[i] == '\r' && s[i + 1] == '\n' && is_wsp(s[i + 2]) {
        3
    } else {
        0
    }
}

/// Where a comment ends whose opening parenthesis has been read, with
/// `depth` further comments open inside it and the text read up to `i`.
/// Inside a comment stand folding white space, comment text, escaped
/// characters and nested comments.
pub open spec fn comment_tail(s: Seq<char>, i: int, depth: nat) -> Option<int>
    decreases s.len() - i,
{
    if i < 0 || i >= s.len() {
        None
    } else if fold_unit(s, i) > 0 {
        comment_tail(s, i + fold_unit(s, i), depth)
    } else if s[i] == '(' {
        comment_tail(s, i + 1, depth + 1)
    } else if s[i] == ')' {
        if depth == 0 {
            Some(i + 1)
        } else {
            comment_tail(s, i + 1, (depth - 1) as nat)
        }
    } else if is_ctext(s[i]) {
        comment_tail(s, i + 1, depth)
    } else if s[i] == '\\' && i + 1 < s.len() && is_escapable(s[i + 1]) {
        comment_tail(s, i + 2, depth)
    } else {
        None
    }
}

/// The end of the comment that starts at `i`, if one does.
pub open spec fn comment(s: Seq<char>, i: int) -> Option<int> {
    if 0 <= i < s.len() && s[i] == '(' {
        comment_tail(s, i + 1, 0)
    } else {
        None
    }
}

/// Whether `r` is an end position behind `i` and inside the text.
pub open spec fn advances(s: Seq<char>, i: int, r: Option<int>) -> bool {
    r matches Some(e) ==> i < e <= s.len()
}

/// Whether `e` is `i`, or a position behind `i` and inside the text.
pub open spec fn reaches(s: Seq<char>, i: int, e: int) -> bool {
    e == i || i < e <= s.len()
}

/// An open comment that closes, closes behind the place where it is read
/// and inside the text.
pub proof fn lemma_comment_tail_advances(s: Seq<char>, i: int, depth: nat)
    ensures
        advances(s, i, comment_tail(s, i, depth)),
    decreases s.len() - i,
{
    if i < 0 || i >= s.len() {
    } else if fold_unit(s, i) > 0 {
        lemma_comment_tail_advances(s, i + fold_unit(s, i), depth);
    } else if s[i] == '(' {
        lemma_comment_tail_advances(s, i + 1, depth + 1);
    } else if s[i] == ')' {
        if depth != 0 {
            lemma_comment_tail_advances(s, i + 1, (depth - 1) as nat);
        }
    } else if is_ctext(s[i]) {
        lemma_comment_tail_advances(s, i + 1, depth);
    } else if s[i] == '\\' && i + 1 < s.len() && is_escapable(s[i + 1]) {
        lemma_comment_tail_advances(s, i + 2, depth);
    }
}

/// A comment ends behind its start and inside the text.
pub proof fn lemma_comment_advances(s: Seq<char>, i: int)
    ensures
        advances(s, i, comment(s, i)),
{
    lemma_comment_tail_advances(s, i + 1, 0);
}

/// The end of the longest run of folding white space and comments that
/// starts at `i`; `i` itself where none does.
pub open spec fn skip_cfws(s: Seq<char>, i: int) -> int
    decreases s.len() - i,
{
    if fold_unit(s, i) > 0 {
        skip_cfws(s, i + fold_unit(s, i))
    } else {
        match comment(s, i) {
            Some(k) => {
                proof {
                    lemma_comment_advances(s, i);
                }
                skip_cfws(s, k)
            },
            None => i,
        }
    }
}

/// White space and comments end at their start, or behind it and inside
/// the text.
pub proof fn lemma_skip_cfws_reaches(s: Seq<char>, i: int)
    ensures
        reaches(s, i, skip_cfws(s, i)),
    decreases s.len() - i,
{
    if fold_unit(s, i) > 0 {
        lemma_skip_cfws_reaches(s, i + fold_unit(s, i));
    } else {
        match comment(s, i) {
            Some(k) => {
                lemma_comment_advances(s, i);
                lemma_skip_cfws_reaches(s, k);
            },
            None => {},
        }
    }
}

/// The answer where a rule does not match at the start of the input.
#[derive(Clone, Copy, Debug, PartialEq, Eq)]
pub struct NoMatch {}

/// Takes one blank (a space or a tab) from the start of `input`: gives the
/// rest of the input and the blank that was taken, in this order.
pub fn wsp(input: &str) -> (r: Result<(&str, &str), NoMatch>)
    ensures
        match r {
            Ok((rest, taken)) => input@.len() > 0 && is_wsp(input@[0]) && taken@
                == input@.subrange(0, 1) && rest@ == input@.subrange(1, input@.len() as int),
            Err(_) => input@.len() == 0 || !is_wsp(input@[0]),
        },
{
    let n: usize = input.unicode_len();
    if n > 0 && blank(input.get_char(0)) {
        Ok((input.substring_char(1, n), input.substring_char(0, 1)))
    } else {
        Err(NoMatch {  })
    }
}

/// The length of the folding unit at `i`.
pub fn fold_unit_at(s: &[char], i: usize) -> (n: usize)
    ensures
        n as int == fold_unit(s@, i as int),
        n > 0 ==> i + n <= s.len(),
{
    if i < s.len() && blank(s[i]) {
        1
    } else if i < s.len() && s.len() - i > 2 && s[i] == '\r' && s[i + 1] == '\n' && blank(
        s[i + 2],
    ) {
        3
    } else {
        0
    }
}

/// Matches a comment at `i`.
pub fn match_comment(s: &[char], i: usize) -> (r: Option<usize>)
    ensures
        as_end(r) == comment(s@, i as int),
        r matches Some(e) ==> i < e <= s.len(),
{
    if i >= s.len() || s[i] != '(' {
        return None;
    }
    let mut j: usize = i + 1;
    let mut depth: usize = 0;
    loop
        invariant
            i < j <= s.len(),
            depth <= j,
            comment(s@, i as int) == comment_tail(s@, j as int, depth as nat),
        decreases s.len() - j,
    {
        if j >= s.len() {
            return None;
        }
        let n: usize = fold_unit_at(s, j);
        let c: char = s[j];
        if n > 0 {
            j = j + n;
        } else if c == '(' {
            j = j + 1;
            depth = depth + 1;
        } else if c == ')' {
            j = j + 1;
            if depth == 0 {
                return Some(j);
            }
            depth = depth - 1;
        } else if ctext(c) {
            j = j + 1;
        } else if c == '\\' && s.len() - j > 1 && escapable(s[j + 1]) {
            j = j + 2;
        } else {
            return None;
        }
    }
}

/// Skips folding white space and comments from `i` on.
pub fn match_cfws(s: &[char], i: usize) -> (e: usize)
    requires
        i <= s.len(),
    ensures
        e as int == skip_cfws(s@, i as int),
        i <= e <= s.len(),
{
    let mut j: usize = i;
    loop
        invariant
            i <= j <= s.len(),
            skip_cfws(s@, i as int) == skip_cfws(s@, j as int),
        decreases s.len() - j,
    {
        let n: usize = fold_unit_at(s, j);
        if n > 0 {
            j = j + n;
        } else {
            match match_comment(s, j) {
                Some(k) => {
                    j = k;
                },
                None => {
                    return j;
                },
            }
        }
    }
}

} // verus!
