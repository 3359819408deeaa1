//! Matching a named rule of the grammar against a text.

use crate::grammar::{
    address, domain, domain_literal, domain_obs, local_part, local_part_obs, match_address,
    match_domain, match_domain_literal, match_domain_obs, match_local_part, match_local_part_obs,
};
use crate::lexical::as_end;
use vstd::prelude::*;

verus! {

broadcast use vstd::string::group_string_axioms;

/// The rules that can be matched by name.
#[derive(Clone, Copy, Debug, PartialEq, Eq)]
pub enum Rule {
    /// A whole address of the current grammar.
    AddressSingle,
    /// A whole address of the obsolete grammar.
    AddressSingleObs,
    /// A local part of the current grammar.
    LocalPart,
    /// A local part of the obsolete grammar.
    LocalPartObs,
    /// A domain of the current grammar.
    Domain,
    /// A domain of the obsolete grammar.
    DomainObs,
    /// A domain of the current grammar that is the whole input.
    DomainComplete,
    /// A domain literal.
    DomainLiteral,
}

/// Where the match of `rule` ends that starts at the beginning of `s`, or
/// `None` where the rule does not match. The two address rules and
/// `DomainComplete` match the whole input or nothing; the other rules may
/// leave a rest.
pub open spec fn rule_end(rule: Rule, s: Seq<char>) -> Option<int> {
    match rule {
        Rule::AddressSingle => if address(s, false) is Some {
            Some(s.len() as int)
        } else {
            None
        },
        Rule::AddressSingleObs => if address(s, true) is Some {
            Some(s.len() as int)
        } else {
            None
        },
        Rule::LocalPart => local_part(s, 0),
        Rule::LocalPartObs => local_part_obs(s, 0),
        Rule::Domain => domain(s, 0),
        Rule::DomainObs => domain_obs(s, 0),
        Rule::DomainComplete => if domain(s, 0) == Some(s.len() as int) {
            Some(s.len() as int)
        } else {
            None
        },
        Rule::DomainLiteral => domain_literal(s, 0),
    }
}

/// A node of a match: a rule, and the span of the text that it took, from
/// `start` up to `end`, counted in characters.
#[derive(Clone, Copy, Debug, PartialEq, Eq)]
pub struct Span {
    pub rule: Rule,
    pub start: usize,
    pub end: usize,
}

/// The match of an address rule: the rule, and below it the spans of the
/// local part and of the domain.
#[derive(Clone, Copy, Debug, PartialEq, Eq)]
pub struct AddressMatch {
    pub rule: Rule,
    pub local_part: Span,
    pub domain: Span,
}

impl AddressMatch {
    /// Whether the two spans lie in a text of `len` characters as those
    /// of an address do: the local part from the start, the domain to the
    /// end, one character between them, neither span empty.
    pub open spec fn fits(&self, len: nat) -> bool {
        &&& self.local_part.start == 0
        &&& 0 < self.local_part.end
        &&& self.local_part.end + 1 == self.domain.start
        &&& self.domain.start < self.domain.end
        &&& self.domain.end == len
    }
}

/// The address rule of the current (`obs` false) or the obsolete grammar.
pub open spec fn address_rule(obs: bool) -> Rule {
    if obs {
        Rule::AddressSingleObs
    } else {
        Rule::AddressSingle
    }
}

/// The local-part rule of the current or the obsolete grammar.
pub open spec fn local_part_rule(obs: bool) -> Rule {
    if obs {
        Rule::LocalPartObs
    } else {
        Rule::LocalPart
    }
}

/// The domain rule of the current or the obsolete grammar.
pub open spec fn domain_rule(obs: bool) -> Rule {
    if obs {
        Rule::DomainObs
    } else {
        Rule::Domain
    }
}

/// The match of the address rule on the whole of `s`: the local part
/// spans the text before the separating `@`, the domain the text behind
/// it.
pub open spec fn address_match(s: Seq<char>, obs: bool) -> Option<AddressMatch> {
    match address(s, obs) {
        Some(at) => Some(
            AddressMatch {
                rule: address_rule(obs),
                local_part: Span { rule: local_part_rule(obs), start: 0, end: at as usize },
                domain: Span {
                    rule: domain_rule(obs),
                    start: (at + 1) as usize,
                    end: s.len() as usize,
                },
            },
        ),
        None => None,
    }
}

/// Matches the address rule of the current (`obs` false) or the obsolete
/// grammar against the whole of `s`.
pub fn match_address_rule(s: &[char], obs: bool) -> (r: Option<AddressMatch>)
    ensures
        r == address_match(s@, obs),
        r matches Some(m) ==> m.fits(s@.len()),
{
    match match_address(s, obs) {
        Some(at) => Some(
            AddressMatch {
                rule: if obs {
                    Rule::AddressSingleObs
                } else {
                    Rule::AddressSingle
                },
                local_part: Span {
                    rule: if obs {
                        Rule::LocalPartObs
                    } else {
                        Rule::LocalPart
                    },
                    start: 0,
                    end: at,
                },
                domain: Span {
                    rule: if obs {
                        Rule::DomainObs
                    } else {
                        Rule::Domain
                    },
                    start: at + 1,
                    end: s.len(),
                },
            },
        ),
        None => None,
    }
}

/// The characters of a text, one by one.
pub fn to_chars(input: &str) -> (v: Vec<char>)
    ensures
        v@ == input@,
{
    let mut v: Vec<char> = Vec::new();
    for c in it: input.chars()
        invariant
            it.seq() == input@,
            v@ == input@.subrange(0, it.index() as int),
    {
        v.push(c);
    }
    v
}

/// Matches `rule` from the start of `s` and gives the number of
/// characters that the match takes.
pub fn match_rule_chars(rule: Rule, s: &[char]) -> (r: Option<usize>)
    ensures
        as_end(r) == rule_end(rule, s@),
        r matches Some(e) ==> 0 < e <= s.len(),
{
    match rule {
        Rule::AddressSingle => match match_address(s, false) {
            Some(_) => Some(s.len()),
            None => None,
        },
        Rule::AddressSingleObs => match match_address(s, true) {
            Some(_) => Some(s.len()),
            None => None,
        },
        Rule::LocalPart => match_local_part(s, 0),
        Rule::LocalPartObs => match_local_part_obs(s, 0),
        Rule::Domain => match_domain(s, 0),
        Rule::DomainObs => match_domain_obs(s, 0),
        Rule::DomainComplete => match match_domain(s, 0) {
            Some(e) => if e == s.len() {
                Some(e)
            } else {
                None
            },
            None => None,
        },
        Rule::DomainLiteral => match_domain_literal(s, 0),
    }
}

/// Matches `rule` from the start of `input` and gives the number of
/// characters that the match takes, or `None` where the rule does not
/// match.
pub fn match_rule(rule: Rule, input: &str) -> (r: Option<usize>)
    ensures
        as_end(r) == rule_end(rule, input@),
        r matches Some(e) ==> 0 < e <= input@.len(),
{
    let v: Vec<char> = to_chars(input);
    match_rule_chars(rule, v.as_slice())
}

} // verus!
