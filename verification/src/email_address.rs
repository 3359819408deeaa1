//! The address value, and the parser that produces it.

use crate::grammar::{address, domain_of, lemma_parts_advance, local_part_of};
use crate::matcher::{address_match, match_address_rule, to_chars, AddressMatch};
use vstd::prelude::*;
use vstd::string::{StrSliceExecFns, StringExecFns};

verus! {

/// An e-mail address: the text before the separating `@` and the text
/// behind it.
#[derive(Debug)]
pub struct EmailAddress {
    local_part: String,
    domain: String,
}

/// What an address holds, as two sequences of characters.
pub ghost struct AddressView {
    pub local_part: Seq<char>,
    pub domain: Seq<char>,
}

impl View for EmailAddress {
    type V = AddressView;

    closed spec fn view(&self) -> AddressView {
        AddressView { local_part: self.local_part@, domain: self.domain@ }
    }
}

/// The text of an address: local part, `@`, domain.
pub open spec fn rendered(a: AddressView) -> Seq<char> {
    a.local_part + seq!['@'] + a.domain
}

/// The two parts of `s` around position `at`.
pub open spec fn split_around(s: Seq<char>, at: int) -> AddressView {
    AddressView { local_part: s.subrange(0, at), domain: s.subrange(at + 1, s.len() as int) }
}

/// The mode that an optional flag selects: permissive unless it says
/// strict.
pub open spec fn strictness(is_strict: Option<bool>) -> bool {
    match is_strict {
        Some(b) => b,
        None => false,
    }
}

/// The position of the separating `@` in an accepted input: that of the
/// current grammar where it matches; else, unless `strict`, that of the
/// obsolete grammar.
pub open spec fn parse_at(s: Seq<char>, strict: bool) -> Option<int> {
    match address(s, false) {
        Some(at) => Some(at),
        None => if strict {
            None
        } else {
            address(s, true)
        },
    }
}

/// The match that parsing `s` rests on: that of the current grammar where
/// it matches; else, unless `strict`, that of the obsolete grammar.
pub open spec fn parse_match(s: Seq<char>, strict: bool) -> Option<AddressMatch> {
    match address_match(s, false) {
        Some(m) => Some(m),
        None => if strict {
            None
        } else {
            address_match(s, true)
        },
    }
}

/// The text of `s` that the two spans of `m` take.
pub open spec fn captured(s: Seq<char>, m: AddressMatch) -> AddressView {
    AddressView {
        local_part: s.subrange(m.local_part.start as int, m.local_part.end as int),
        domain: s.subrange(m.domain.start as int, m.domain.end as int),
    }
}

/// The address that parsing `s` gives, if it gives one.
pub open spec fn parsed(s: Seq<char>, strict: bool) -> Option<AddressView> {
    match parse_at(s, strict) {
        Some(at) => Some(split_around(s, at)),
        None => None,
    }
}

/// The view of an optional address.
pub open spec fn view_of(r: Option<EmailAddress>) -> Option<AddressView> {
    match r {
        Some(a) => Some(a@),
        None => None,
    }
}

impl EmailAddress {
    /// An address of the two given parts, which are not validated.
    pub fn new(local_part: &str, domain: &str) -> (r: EmailAddress)
        ensures
            r@.local_part == local_part@,
            r@.domain == domain@,
    {
        EmailAddress {
            local_part: String::from_str(local_part),
            domain: String::from_str(domain),
        }
    }

    /// Selects the grammar and matches `s`: the current grammar first,
    /// and then, unless `strict`, the obsolete one.
    pub fn match_input(s: &[char], strict: bool) -> (r: Option<AddressMatch>)
        ensures
            r == parse_match(s@, strict),
            r matches Some(m) ==> m.fits(s@.len()),
    {
        match match_address_rule(s, false) {
            Some(m) => Some(m),
            None => {
                if strict {
                    None
                } else {
                    match_address_rule(s, true)
                }
            },
        }
    }

    /// The address whose parts are the text of `input` under the two
    /// spans of `m`, character for character.
    pub fn extract(input: &str, m: &AddressMatch) -> (r: EmailAddress)
        requires
            m.local_part.start <= m.local_part.end <= input@.len(),
            m.domain.start <= m.domain.end <= input@.len(),
        ensures
            r@ == captured(input@, *m),
    {
        EmailAddress {
            local_part: String::from_str(
                input.substring_char(m.local_part.start, m.local_part.end),
            ),
            domain: String::from_str(input.substring_char(m.domain.start, m.domain.end)),
        }
    }

    /// Parses `input` as an address. Without a flag, or with `Some(false)`,
    /// the obsolete grammar is tried where the current one does not match.
    /// An accepted input is split at the `@` between local part and
    /// domain: both parts are non-empty and keep every character of the
    /// input, white space and comments included.
    pub fn parse(input: &str, is_strict: Option<bool>) -> (r: Option<EmailAddress>)
        ensures
            view_of(r) == parsed(input@, strictness(is_strict)),
            r matches Some(a) ==> rendered(a@) == input@,
            r matches Some(a) ==> a@.local_part.len() > 0 && a@.domain.len() > 0,
    {
        let strict: bool = match is_strict {
            Some(b) => b,
            None => false,
        };
        let v: Vec<char> = to_chars(input);
        match Self::match_input(v.as_slice(), strict) {
            Some(m) => {
                proof {
                    lemma_round_trip(input@, strict);
                    lemma_parts_not_empty(input@, strict);
                }
                Some(Self::extract(input, &m))
            },
            None => None,
        }
    }

    /// A copy of the local part.
    pub fn local_part(&self) -> (r: String)
        ensures
            r@ == self@.local_part,
    {
        self.local_part.clone()
    }

    /// A copy of the domain.
    pub fn domain(&self) -> (r: String)
        ensures
            r@ == self@.domain,
    {
        self.domain.clone()
    }

    /// The local part.
    pub fn get_local_part(&self) -> (r: &str)
        ensures
            r@ == self@.local_part,
    {
        self.local_part.as_str()
    }

    /// The domain.
    pub fn get_domain(&self) -> (r: &str)
        ensures
            r@ == self@.domain,
    {
        self.domain.as_str()
    }

    /// The address as text: local part, `@`, domain.
    pub fn to_string(&self) -> (r: String)
        ensures
            r@ == rendered(self@),
    {
        let mut r: String = String::from_str(self.local_part.as_str());
        proof {
            reveal_strlit("@");
        }
        r.append("@");
        r.append(self.domain.as_str());
        proof {
            assert("@"@ =~= seq!['@']);
        }
        r
    }
}

/// An accepted input is given back by its address, character for
/// character: local part, `@` and domain, put together, are the input.
pub proof fn lemma_round_trip(s: Seq<char>, strict: bool)
    ensures
        parsed(s, strict) matches Some(a) ==> rendered(a) == s,
{
    match parse_at(s, strict) {
        Some(at) => {
            assert(0 <= at < s.len() && s[at] == '@');
            assert(rendered(split_around(s, at)) =~= s);
        },
        None => {},
    }
}

/// The parsed address is the text under the two spans of the match: the
/// local part is what stands before the separating `@`, the domain what
/// stands behind it.
pub proof fn lemma_parsed_is_captured(s: Seq<char>, strict: bool)
    requires
        s.len() <= usize::MAX,
    ensures
        parsed(s, strict) is Some <==> parse_match(s, strict) is Some,
        parse_match(s, strict) matches Some(m) ==> parsed(s, strict) == Some(captured(s, m))
            && m.fits(s.len()),
{
    lemma_parts_not_empty(s, strict);
}

/// Both parts of a parsed address hold at least one character.
pub proof fn lemma_parts_not_empty(s: Seq<char>, strict: bool)
    ensures
        parsed(s, strict) matches Some(a) ==> a.local_part.len() > 0 && a.domain.len() > 0,
{
    match parse_at(s, strict) {
        Some(at) => {
            lemma_parts_advance(s, 0, true);
            lemma_parts_advance(s, 0, false);
            lemma_parts_advance(s, at + 1, true);
            lemma_parts_advance(s, at + 1, false);
        },
        None => {},
    }
}

/// What the strict mode accepts, the permissive mode accepts too, with
/// the same address.
pub proof fn lemma_strict_within_permissive(s: Seq<char>)
    ensures
        parsed(s, true) is Some ==> parsed(s, false) == parsed(s, true),
{
}

/// A match is anchored at both ends of the input: in an accepted input
/// the local part starts at the first character and ends at the
/// separating `@`, and the domain that starts behind it ends with the
/// last character, under one of the two grammars (the current one in
/// strict mode). Nothing is left over behind the domain.
pub proof fn lemma_anchored(s: Seq<char>, strict: bool)
    ensures
        parse_at(s, strict) matches Some(at) ==> exists|obs: bool|
            (strict ==> !obs) && 0 <= at < s.len() && s[at] == '@' && #[trigger] local_part_of(
                s,
                0,
                obs,
            ) == Some(at) && domain_of(s, at + 1, obs) == Some(s.len() as int),
{
    match parse_at(s, strict) {
        Some(at) => {
            let obs = address(s, false) is None;
            assert(local_part_of(s, 0, obs) == Some(at));
        },
        None => {},
    }
}

/// An input that holds no `@` is accepted in neither mode.
pub proof fn lemma_needs_separator(s: Seq<char>, strict: bool)
    requires
        !s.contains('@'),
    ensures
        parsed(s, strict) is None,
{
    match parse_at(s, strict) {
        Some(at) => {
            assert(s[at] == '@');
        },
        None => {},
    }
}

} // verus!
