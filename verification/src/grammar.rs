//! The rules of the address grammar: atoms, quoted strings, local parts,
//! domains, and the two address rules, the current one and the obsolete
//! one.
//!
//! A rule's model takes the input and a start position and gives the
//! position at which the rule's match ends, or `None` where the rule does
//! not match there. Alternatives are ordered and repetition is greedy.

use crate::chars::{
    atext, dtext, escapable, is_atext, is_dtext, is_escapable, is_label_char, is_qtext,
    label_char, qtext,
};
use crate::lexical::{
    advances, as_end, fold_unit, fold_unit_at, lemma_skip_cfws_reaches, match_cfws, reaches,
    skip_cfws,
};
use vstd::prelude::*;

verus! {

/// The end of the longest run of atom characters from `i` on.
pub open spec fn skip_atext(s: Seq<char>, i: int) -> int
    decreases s.len() - i,
{
    if 0 <= i < s.len() && is_atext(s[i]) {
        skip_atext(s, i + 1)
    } else {
        i
    }
}

/// An atom: a non-empty run of atom characters, with optional folding
/// white space and comments on both sides.
pub open spec fn atom(s: Seq<char>, i: int) -> Option<int> {
    let a = skip_cfws(s, i);
    let b = skip_atext(s, a);
    if b > a {
        Some(skip_cfws(s, b))
    } else {
        None
    }
}

/// The rest of a dot-atom's text behind its first character: atom
/// characters, and dots that an atom character follows at once.
pub open spec fn dot_atom_tail(s: Seq<char>, i: int) -> int
    decreases s.len() - i,
{
    if 0 <= i < s.len() && is_atext(s[i]) {
        dot_atom_tail(s, i + 1)
    } else if 0 <= i && i + 1 < s.len() && s[i] == '.' && is_atext(s[i + 1]) {
        dot_atom_tail(s, i + 2)
    } else {
        i
    }
}

/// A dot-atom: runs of atom characters joined by single dots, nothing
/// standing between a run and its dot, with optional folding white space
/// and comments around the whole.
pub open spec fn dot_atom(s: Seq<char>, i: int) -> Option<int> {
    let a = skip_cfws(s, i);
    if 0 <= a < s.len() && is_atext(s[a]) {
        Some(skip_cfws(s, dot_atom_tail(s, a + 1)))
    } else {
        None
    }
}

/// Where a quoted string's closing quote is passed, the text behind the
/// opening quote read up to `i`. Between the quotes stand folding white
/// space, quoted text and escaped characters.
pub open spec fn quoted_tail(s: Seq<char>, i: int) -> Option<int>
    decreases s.len() - i,
{
    if i < 0 || i >= s.len() {
        None
    } else if fold_unit(s, i) > 0 {
        quoted_tail(s, i + fold_unit(s, i))
    } else if s[i] == '"' {
        Some(i + 1)
    } else if is_qtext(s[i]) {
        quoted_tail(s, i + 1)
    } else if s[i] == '\\' && i + 1 < s.len() && is_escapable(s[i + 1]) {
        quoted_tail(s, i + 2)
    } else {
        None
    }
}

/// A quoted string, with optional folding white space and comments on
/// both sides.
pub open spec fn quoted_string(s: Seq<char>, i: int) -> Option<int> {
    let a = skip_cfws(s, i);
    if 0 <= a < s.len() && s[a] == '"' {
        match quoted_tail(s, a + 1) {
            Some(b) => Some(skip_cfws(s, b)),
            None => None,
        }
    } else {
        None
    }
}

/// A word: an atom, or else a quoted string.
pub open spec fn word(s: Seq<char>, i: int) -> Option<int> {
    match atom(s, i) {
        Some(e) => Some(e),
        None => quoted_string(s, i),
    }
}

/// The end of the longest run of label characters and hyphens from `i` on.
pub open spec fn skip_ldh(s: Seq<char>, i: int) -> int
    decreases s.len() - i,
{
    if 0 <= i < s.len() && (is_label_char(s[i]) || s[i] == '-') {
        skip_ldh(s, i + 1)
    } else {
        i
    }
}

/// A domain label: the longest run of letters, digits and hyphens at `i`,
/// which must neither begin nor end with a hyphen.
pub open spec fn label(s: Seq<char>, i: int) -> Option<int> {
    if 0 <= i < s.len() && is_label_char(s[i]) {
        let e = skip_ldh(s, i + 1);
        if s[e - 1] == '-' {
            None
        } else {
            Some(e)
        }
    } else {
        None
    }
}

/// The run of label characters and hyphens that starts at `i` holds
/// nothing else, and the character behind it, if there is one, is neither.
pub proof fn lemma_skip_ldh_is_longest(s: Seq<char>, i: int)
    requires
        0 <= i <= s.len(),
    ensures
        i <= skip_ldh(s, i) <= s.len(),
        forall|k: int| i <= k < skip_ldh(s, i) ==> is_label_char(#[trigger] s[k]) || s[k] == '-',
        skip_ldh(s, i) < s.len() ==> !is_label_char(s[skip_ldh(s, i)]) && s[skip_ldh(s, i)] != '-',
    decreases s.len() - i,
{
    if i < s.len() && (is_label_char(s[i]) || s[i] == '-') {
        lemma_skip_ldh_is_longest(s, i + 1);
    }
}

/// A domain label is not empty, begins and ends with a letter or a
/// digit, holds only letters, digits and hyphens, and is not followed by
/// one of these.
pub proof fn lemma_label_shape(s: Seq<char>, i: int)
    ensures
        label(s, i) matches Some(e) ==> {
            &&& 0 <= i < e <= s.len()
            &&& is_label_char(s[i])
            &&& is_label_char(s[e - 1])
            &&& forall|k: int| i <= k < e ==> is_label_char(#[trigger] s[k]) || s[k] == '-'
            &&& e < s.len() ==> !is_label_char(s[e]) && s[e] != '-'
        },
{
    if 0 <= i < s.len() && is_label_char(s[i]) {
        lemma_skip_ldh_is_longest(s, i + 1);
    }
}

/// A domain label with optional folding white space and comments on both
/// sides, as the obsolete grammar takes it.
pub open spec fn spaced_label(s: Seq<char>, i: int) -> Option<int> {
    match label(s, skip_cfws(s, i)) {
        Some(b) => Some(skip_cfws(s, b)),
        None => None,
    }
}

/// What stands between the dots of a dotted sequence.
#[derive(Clone, Copy, Debug, PartialEq, Eq)]
pub enum Segment {
    /// A word, in an obsolete local part.
    Word,
    /// A bare label, in a domain name.
    Label,
    /// A label with white space and comments around it, in an obsolete
    /// domain name.
    SpacedLabel,
}

/// The rule of one segment of the given kind.
pub open spec fn segment(kind: Segment, s: Seq<char>, i: int) -> Option<int> {
    match kind {
        Segment::Word => word(s, i),
        Segment::Label => label(s, i),
        Segment::SpacedLabel => spaced_label(s, i),
    }
}

/// A run of atom characters ends at its start, or behind it and inside
/// the text; so does the rest of a dot-atom's text, and a run of label
/// characters and hyphens.
pub proof fn lemma_runs_reach(s: Seq<char>, i: int)
    ensures
        reaches(s, i, skip_atext(s, i)),
        reaches(s, i, dot_atom_tail(s, i)),
        reaches(s, i, skip_ldh(s, i)),
    decreases s.len() - i,
{
    if 0 <= i < s.len() {
        lemma_runs_reach(s, i + 1);
        if i + 1 < s.len() {
            lemma_runs_reach(s, i + 2);
        }
    }
}

/// A quoted string that closes, closes behind the place where it is read
/// and inside the text; so does a domain literal.
pub proof fn lemma_tails_advance(s: Seq<char>, i: int)
    ensures
        advances(s, i, quoted_tail(s, i)),
        advances(s, i, literal_tail(s, i)),
    decreases s.len() - i,
{
    if 0 <= i < s.len() {
        lemma_tails_advance(s, i + 1);
        if i + 1 < s.len() {
            lemma_tails_advance(s, i + 2);
        }
        if i + 2 < s.len() {
            lemma_tails_advance(s, i + 3);
        }
    }
}

/// No token is empty: an atom, a dot-atom, a quoted string, a word, a
/// label and a domain literal each end behind their start and inside the
/// text.
pub proof fn lemma_tokens_advance(s: Seq<char>, i: int)
    ensures
        advances(s, i, atom(s, i)),
        advances(s, i, dot_atom(s, i)),
        advances(s, i, quoted_string(s, i)),
        advances(s, i, word(s, i)),
        advances(s, i, label(s, i)),
        advances(s, i, spaced_label(s, i)),
        advances(s, i, domain_literal(s, i)),
{
    let a = skip_cfws(s, i);
    lemma_skip_cfws_reaches(s, i);
    lemma_runs_reach(s, a);
    lemma_skip_cfws_reaches(s, skip_atext(s, a));
    lemma_runs_reach(s, a + 1);
    lemma_skip_cfws_reaches(s, dot_atom_tail(s, a + 1));
    lemma_tails_advance(s, a + 1);
    if let Some(b) = quoted_tail(s, a + 1) {
        lemma_skip_cfws_reaches(s, b);
    }
    if let Some(b) = literal_tail(s, a + 1) {
        lemma_skip_cfws_reaches(s, b);
    }
    lemma_runs_reach(s, i + 1);
    if let Some(b) = label(s, a) {
        lemma_skip_cfws_reaches(s, b);
    }
}

/// No segment is empty.
pub proof fn lemma_segment_advances(kind: Segment, s: Seq<char>, i: int)
    ensures
        advances(s, i, segment(kind, s, i)),
{
    lemma_tokens_advance(s, i);
}

/// The end of the longest sequence of a dot and a segment, repeated, from
/// `i` on; `i` itself where no dot with a segment behind it stands.
pub open spec fn dotted_tail(kind: Segment, s: Seq<char>, i: int) -> int
    decreases s.len() - i,
{
    if 0 <= i < s.len() && s[i] == '.' {
        match segment(kind, s, i + 1) {
            Some(e) => {
                proof {
                    lemma_segment_advances(kind, s, i + 1);
                }
                dotted_tail(kind, s, e)
            },
            None => i,
        }
    } else {
        i
    }
}

/// A dotted sequence ends at its start, or behind it and inside the text.
pub proof fn lemma_dotted_tail_reaches(kind: Segment, s: Seq<char>, i: int)
    ensures
        reaches(s, i, dotted_tail(kind, s, i)),
    decreases s.len() - i,
{
    if 0 <= i < s.len() && s[i] == '.' {
        match segment(kind, s, i + 1) {
            Some(e) => {
                lemma_segment_advances(kind, s, i + 1);
                lemma_dotted_tail_reaches(kind, s, e);
            },
            None => {},
        }
    }
}

/// The local part of the current grammar: a dot-atom, or else a quoted
/// string.
pub open spec fn local_part(s: Seq<char>, i: int) -> Option<int> {
    match dot_atom(s, i) {
        Some(e) => Some(e),
        None => quoted_string(s, i),
    }
}

/// The local part of the obsolete grammar: words joined by dots, with
/// folding white space and comments allowed around every word.
pub open spec fn local_part_obs(s: Seq<char>, i: int) -> Option<int> {
    match word(s, i) {
        Some(e) => Some(dotted_tail(Segment::Word, s, e)),
        None => None,
    }
}

/// A domain name of the current grammar: labels joined by dots, with
/// optional folding white space and comments around the whole.
pub open spec fn domain_name(s: Seq<char>, i: int) -> Option<int> {
    match label(s, skip_cfws(s, i)) {
        Some(b) => Some(skip_cfws(s, dotted_tail(Segment::Label, s, b))),
        None => None,
    }
}

/// A domain name of the obsolete grammar: labels joined by dots, with
/// folding white space and comments allowed around every label.
pub open spec fn domain_name_obs(s: Seq<char>, i: int) -> Option<int> {
    match spaced_label(s, i) {
        Some(e) => Some(dotted_tail(Segment::SpacedLabel, s, e)),
        None => None,
    }
}

/// Where a domain literal's closing bracket is passed, the text behind the
/// opening bracket read up to `i`. Between the brackets stand folding
/// white space, literal text (control characters among it) and escaped
/// characters.
pub open spec fn literal_tail(s: Seq<char>, i: int) -> Option<int>
    decreases s.len() - i,
{
    if i < 0 || i >= s.len() {
        None
    } else if fold_unit(s, i) > 0 {
        literal_tail(s, i + fold_unit(s, i))
    } else if s[i] == ']' {
        Some(i + 1)
    } else if is_dtext(s[i]) {
        literal_tail(s, i + 1)
    } else if s[i] == '\\' && i + 1 < s.len() && is_escapable(s[i + 1]) {
        literal_tail(s, i + 2)
    } else {
        None
    }
}

/// A domain literal: bracketed text, with optional folding white space
/// and comments on both sides. The match includes the brackets.
pub open spec fn domain_literal(s: Seq<char>, i: int) -> Option<int> {
    let a = skip_cfws(s, i);
    if 0 <= a < s.len() && s[a] == '[' {
        match literal_tail(s, a + 1) {
            Some(b) => Some(skip_cfws(s, b)),
            None => None,
        }
    } else {
        None
    }
}

/// The domain of the current grammar: a domain name, or else a domain
/// literal.
pub open spec fn domain(s: Seq<char>, i: int) -> Option<int> {
    match domain_name(s, i) {
        Some(e) => Some(e),
        None => domain_literal(s, i),
    }
}

/// The domain of the obsolete grammar: an obsolete domain name, or else a
/// domain literal.
pub open spec fn domain_obs(s: Seq<char>, i: int) -> Option<int> {
    match domain_name_obs(s, i) {
        Some(e) => Some(e),
        None => domain_literal(s, i),
    }
}

/// The local-part rule of the current (`obs` false) or the obsolete
/// grammar.
pub open spec fn local_part_of(s: Seq<char>, i: int, obs: bool) -> Option<int> {
    if obs {
        local_part_obs(s, i)
    } else {
        local_part(s, i)
    }
}

/// The domain rule of the current (`obs` false) or the obsolete grammar.
pub open spec fn domain_of(s: Seq<char>, i: int, obs: bool) -> Option<int> {
    if obs {
        domain_obs(s, i)
    } else {
        domain(s, i)
    }
}

/// The address rule, anchored at both ends of the input: a local part
/// from the start, an `@`, and a domain that ends where the input ends.
/// The result is the position of that `@`.
pub open spec fn address(s: Seq<char>, obs: bool) -> Option<int> {
    match local_part_of(s, 0, obs) {
        Some(at) => if 0 <= at < s.len() && s[at] == '@' && domain_of(s, at + 1, obs) == Some(
            s.len() as int,
        ) {
            Some(at)
        } else {
            None
        },
        None => None,
    }
}

/// Neither a local part nor a domain is empty: each ends behind its
/// start and inside the text, in both grammars.
pub proof fn lemma_parts_advance(s: Seq<char>, i: int, obs: bool)
    ensures
        advances(s, i, local_part_of(s, i, obs)),
        advances(s, i, domain_of(s, i, obs)),
{
    lemma_tokens_advance(s, i);
    if let Some(e) = word(s, i) {
        lemma_dotted_tail_reaches(Segment::Word, s, e);
    }
    if let Some(e) = spaced_label(s, i) {
        lemma_dotted_tail_reaches(Segment::SpacedLabel, s, e);
    }
    let a = skip_cfws(s, i);
    lemma_skip_cfws_reaches(s, i);
    lemma_tokens_advance(s, a);
    if let Some(b) = label(s, a) {
        lemma_dotted_tail_reaches(Segment::Label, s, b);
        lemma_skip_cfws_reaches(s, dotted_tail(Segment::Label, s, b));
    }
}

/// Skips atom characters from `i` on.
pub fn match_atext_run(s: &[char], i: usize) -> (e: usize)
    requires
        i <= s.len(),
    ensures
        e as int == skip_atext(s@, i as int),
        i <= e <= s.len(),
{
    let mut j: usize = i;
    while j < s.len() && atext(s[j])
        invariant
            i <= j <= s.len(),
            skip_atext(s@, i as int) == skip_atext(s@, j as int),
        decreases s.len() - j,
    {
        j = j + 1;
    }
    j
}

/// Matches an atom at `i`.
pub fn match_atom(s: &[char], i: usize) -> (r: Option<usize>)
    requires
        i <= s.len(),
    ensures
        as_end(r) == atom(s@, i as int),
        r matches Some(e) ==> i < e <= s.len(),
{
    let a: usize = match_cfws(s, i);
    let b: usize = match_atext_run(s, a);
    if b > a {
        Some(match_cfws(s, b))
    } else {
        None
    }
}

/// Matches a dot-atom at `i`.
pub fn match_dot_atom(s: &[char], i: usize) -> (r: Option<usize>)
    requires
        i <= s.len(),
    ensures
        as_end(r) == dot_atom(s@, i as int),
        r matches Some(e) ==> i < e <= s.len(),
{
    let a: usize = match_cfws(s, i);
    if a >= s.len() || !atext(s[a]) {
        return None;
    }
    let mut j: usize = a + 1;
    loop
        invariant
            i <= a < j <= s.len(),
            a as int == skip_cfws(s@, i as int),
            is_atext(s@[a as int]),
            dot_atom_tail(s@, a + 1) == dot_atom_tail(s@, j as int),
        decreases s.len() - j,
    {
        if j < s.len() && atext(s[j]) {
            j = j + 1;
        } else if j < s.len() && s.len() - j > 1 && s[j] == '.' && atext(s[j + 1]) {
            j = j + 2;
        } else {
            return Some(match_cfws(s, j));
        }
    }
}

/// Matches a quoted string at `i`.
pub fn match_quoted_string(s: &[char], i: usize) -> (r: Option<usize>)
    requires
        i <= s.len(),
    ensures
        as_end(r) == quoted_string(s@, i as int),
        r matches Some(e) ==> i < e <= s.len(),
{
    let a: usize = match_cfws(s, i);
    if a >= s.len() || s[a] != '"' {
        return None;
    }
    let mut j: usize = a + 1;
    loop
        invariant
            i <= a < j <= s.len(),
            a as int == skip_cfws(s@, i as int),
            s@[a as int] == '"',
            quoted_tail(s@, a + 1) == quoted_tail(s@, j as int),
        decreases s.len() - j,
    {
        if j >= s.len() {
            return None;
        }
        let n: usize = fold_unit_at(s, j);
        let c: char = s[j];
        if n > 0 {
            j = j + n;
        } else if c == '"' {
            return Some(match_cfws(s, j + 1));
        } else if qtext(c) {
            j = j + 1;
        } else if c == '\\' && s.len() - j > 1 && escapable(s[j + 1]) {
            j = j + 2;
        } else {
            return None;
        }
    }
}

/// Matches a word at `i`.
pub fn match_word(s: &[char], i: usize) -> (r: Option<usize>)
    requires
        i <= s.len(),
    ensures
        as_end(r) == word(s@, i as int),
        r matches Some(e) ==> i < e <= s.len(),
{
    match match_atom(s, i) {
        Some(e) => Some(e),
        None => match_quoted_string(s, i),
    }
}

/// Matches a domain label at `i`.
pub fn match_label(s: &[char], i: usize) -> (r: Option<usize>)
    requires
        i <= s.len(),
    ensures
        as_end(r) == label(s@, i as int),
        r matches Some(e) ==> i < e <= s.len(),
{
    if i >= s.len() || !label_char(s[i]) {
        return None;
    }
    let mut j: usize = i + 1;
    while j < s.len() && (label_char(s[j]) || s[j] == '-')
        invariant
            i < j <= s.len(),
            is_label_char(s@[i as int]),
            skip_ldh(s@, i + 1) == skip_ldh(s@, j as int),
        decreases s.len() - j,
    {
        j = j + 1;
    }
    if s[j - 1] == '-' {
        None
    } else {
        Some(j)
    }
}

/// Matches a domain label with white space and comments around it at `i`.
pub fn match_spaced_label(s: &[char], i: usize) -> (r: Option<usize>)
    requires
        i <= s.len(),
    ensures
        as_end(r) == spaced_label(s@, i as int),
        r matches Some(e) ==> i < e <= s.len(),
{
    let a: usize = match_cfws(s, i);
    match match_label(s, a) {
        Some(b) => Some(match_cfws(s, b)),
        None => None,
    }
}

/// Matches one segment of the given kind at `i`.
pub fn match_segment(kind: Segment, s: &[char], i: usize) -> (r: Option<usize>)
    requires
        i <= s.len(),
    ensures
        as_end(r) == segment(kind, s@, i as int),
        r matches Some(e) ==> i < e <= s.len(),
{
    match kind {
        Segment::Word => match_word(s, i),
        Segment::Label => match_label(s, i),
        Segment::SpacedLabel => match_spaced_label(s, i),
    }
}

/// Matches dots with a segment behind each, as many as there are.
pub fn match_dotted_tail(kind: Segment, s: &[char], i: usize) -> (e: usize)
    requires
        i <= s.len(),
    ensures
        e as int == dotted_tail(kind, s@, i as int),
        i <= e <= s.len(),
{
    let mut j: usize = i;
    loop
        invariant
            i <= j <= s.len(),
            dotted_tail(kind, s@, i as int) == dotted_tail(kind, s@, j as int),
        decreases s.len() - j,
    {
        if j >= s.len() || s[j] != '.' {
            return j;
        }
        match match_segment(kind, s, j + 1) {
            Some(e) => {
                j = e;
            },
            None => {
                return j;
            },
        }
    }
}

/// Matches a local part of the current grammar at `i`.
pub fn match_local_part(s: &[char], i: usize) -> (r: Option<usize>)
    requires
        i <= s.len(),
    ensures
        as_end(r) == local_part(s@, i as int),
        r matches Some(e) ==> i < e <= s.len(),
{
    match match_dot_atom(s, i) {
        Some(e) => Some(e),
        None => match_quoted_string(s, i),
    }
}

/// Matches a local part of the obsolete grammar at `i`.
pub fn match_local_part_obs(s: &[char], i: usize) -> (r: Option<usize>)
    requires
        i <= s.len(),
    ensures
        as_end(r) == local_part_obs(s@, i as int),
        r matches Some(e) ==> i < e <= s.len(),
{
    match match_word(s, i) {
        Some(e) => Some(match_dotted_tail(Segment::Word, s, e)),
        None => None,
    }
}

/// Matches a domain literal at `i`.
pub fn match_domain_literal(s: &[char], i: usize) -> (r: Option<usize>)
    requires
        i <= s.len(),
    ensures
        as_end(r) == domain_literal(s@, i as int),
        r matches Some(e) ==> i < e <= s.len(),
{
    let a: usize = match_cfws(s, i);
    if a >= s.len() || s[a] != '[' {
        return None;
    }
    let mut j: usize = a + 1;
    loop
        invariant
            i <= a < j <= s.len(),
            a as int == skip_cfws(s@, i as int),
            s@[a as int] == '[',
            literal_tail(s@, a + 1) == literal_tail(s@, j as int),
        decreases s.len() - j,
    {
        if j >= s.len() {
            return None;
        }
        let n: usize = fold_unit_at(s, j);
        let c: char = s[j];
        if n > 0 {
            j = j + n;
        } else if c == ']' {
            return Some(match_cfws(s, j + 1));
        } else if dtext(c) {
            j = j + 1;
        } else if c == '\\' && s.len() - j > 1 && escapable(s[j + 1]) {
            j = j + 2;
        } else {
            return None;
        }
    }
}

/// Matches a domain of the current grammar at `i`.
pub fn match_domain(s: &[char], i: usize) -> (r: Option<usize>)
    requires
        i <= s.len(),
    ensures
        as_end(r) == domain(s@, i as int),
        r matches Some(e) ==> i < e <= s.len(),
{
    let a: usize = match_cfws(s, i);
    match match_label(s, a) {
        Some(b) => {
            let c: usize = match_dotted_tail(Segment::Label, s, b);
            Some(match_cfws(s, c))
        },
        None => match_domain_literal(s, i),
    }
}

/// Matches a domain of the obsolete grammar at `i`.
pub fn match_domain_obs(s: &[char], i: usize) -> (r: Option<usize>)
    requires
        i <= s.len(),
    ensures
        as_end(r) == domain_obs(s@, i as int),
        r matches Some(e) ==> i < e <= s.len(),
{
    match match_spaced_label(s, i) {
        Some(e) => Some(match_dotted_tail(Segment::SpacedLabel, s, e)),
        None => match_domain_literal(s, i),
    }
}

/// Matches the address rule of the current (`obs` false) or the obsolete
/// grammar against the whole input, and gives the position of the `@`
/// between local part and domain.
pub fn match_address(s: &[char], obs: bool) -> (r: Option<usize>)
    ensures
        as_end(r) == address(s@, obs),
        r matches Some(at) ==> 0 < at && at + 1 < s.len(),
{
    let local: Option<usize> = if obs {
        match_local_part_obs(s, 0)
    } else {
        match_local_part(s, 0)
    };
    match local {
        Some(at) => {
            if at >= s.len() || s[at] != '@' {
                return None;
            }
            let end: Option<usize> = if obs {
                match_domain_obs(s, at + 1)
            } else {
                match_domain(s, at + 1)
            };
            match end {
                Some(e) => if e == s.len() {
                    Some(at)
                } else {
                    None
                },
                None => None,
            }
        },
        None => None,
    }
}

} // verus!
