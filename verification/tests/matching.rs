use email_address_parser::chars::{
    atext, blank, ctext, dtext, escapable, label_char, obs_ctl, qtext,
};
use email_address_parser::email_address::EmailAddress;
use email_address_parser::grammar::{
    match_address, match_atext_run, match_atom, match_domain, match_domain_literal,
    match_domain_obs, match_dot_atom, match_dotted_tail, match_label, match_local_part,
    match_local_part_obs, match_quoted_string, match_segment, match_spaced_label, match_word,
    Segment,
};
use email_address_parser::lexical::{fold_unit_at, match_cfws, match_comment};
use email_address_parser::matcher::{
    match_address_rule, match_rule_chars, to_chars, AddressMatch, Rule, Span,
};

fn cs(s: &str) -> Vec<char> {
    s.chars().collect()
}

#[test]
fn character_classes() {
    assert!(blank(' ') && blank('\t') && !blank('\r') && !blank('\n') && !blank('a'));
    assert!(obs_ctl('\u{1}') && obs_ctl('\u{8}') && obs_ctl('\u{b}') && obs_ctl('\u{c}'));
    assert!(obs_ctl('\u{e}') && obs_ctl('\u{1f}') && obs_ctl('\u{7f}'));
    assert!(!obs_ctl('\u{0}') && !obs_ctl('\t') && !obs_ctl('\n') && !obs_ctl('\r') && !obs_ctl(' '));
    assert!(atext('a') && atext('Z') && atext('0') && atext('9') && atext('~') && atext('\u{80}'));
    assert!(!atext('.') && !atext('@') && !atext('(') && !atext('"') && !atext('[') && !atext(' '));
    assert!(!atext('\\') && !atext(',') && !atext(':') && !atext(';') && !atext('<') && !atext('>'));
    assert!(ctext('!') && ctext('\'') && ctext('*') && ctext('[') && ctext(']') && ctext('~'));
    assert!(!ctext('(') && !ctext(')') && !ctext('\\') && !ctext(' ') && ctext('\u{7}'));
    assert!(qtext('!') && qtext('#') && qtext('[') && qtext(']') && qtext('~') && qtext('\u{7}'));
    assert!(!qtext('"') && !qtext('\\') && !qtext(' ') && !qtext('\u{0}'));
    assert!(dtext('!') && dtext('Z') && dtext('^') && dtext('~') && dtext('\u{7}') && dtext('\u{e9}'));
    assert!(!dtext('[') && !dtext(']') && !dtext('\\') && !dtext(' ') && !dtext('\u{0}'));
    assert!(escapable('\u{0}') && escapable('\u{7f}') && escapable('"') && !escapable('\u{80}'));
    assert!(label_char('a') && label_char('z') && label_char('A') && label_char('5'));
    assert!(label_char('\u{e9}') && !label_char('-') && !label_char('_') && !label_char('.'));
    assert!(!label_char('@') && !label_char('[') && !label_char('`') && !label_char('{'));
    assert!(!label_char('/') && !label_char(':'));
}

#[test]
fn folding_units() {
    assert_eq!(fold_unit_at(&cs(" a"), 0), 1);
    assert_eq!(fold_unit_at(&cs("\ta"), 0), 1);
    assert_eq!(fold_unit_at(&cs("\r\n a"), 0), 3);
    assert_eq!(fold_unit_at(&cs("\r\n\ta"), 0), 3);
    assert_eq!(fold_unit_at(&cs("\r\na"), 0), 0);
    assert_eq!(fold_unit_at(&cs("\r\n"), 0), 0);
    assert_eq!(fold_unit_at(&cs("\n "), 0), 0);
    assert_eq!(fold_unit_at(&cs("a "), 0), 0);
    assert_eq!(fold_unit_at(&cs("a "), 1), 1);
    assert_eq!(fold_unit_at(&cs("a "), 2), 0);
    assert_eq!(fold_unit_at(&cs("a "), 7), 0);
}

#[test]
fn comments() {
    assert_eq!(match_comment(&cs("(a)b"), 0), Some(3));
    assert_eq!(match_comment(&cs("()"), 0), Some(2));
    assert_eq!(match_comment(&cs("x(a (b) c)d"), 1), Some(10));
    assert_eq!(match_comment(&cs("(a\\)b)"), 0), Some(6));
    assert_eq!(match_comment(&cs("(a\\"), 0), None);
    assert_eq!(match_comment(&cs("(a(b)"), 0), None);
    assert_eq!(match_comment(&cs("a(b)"), 0), None);
    assert_eq!(match_comment(&cs("(a\r\nb)"), 0), None);
    assert_eq!(match_comment(&cs("(a\r\n b)"), 0), Some(7));
    assert_eq!(match_comment(&cs("(a)"), 3), None);
    assert_eq!(match_comment(&cs("(a)"), 9), None);
}

#[test]
fn white_space_and_comments() {
    assert_eq!(match_cfws(&cs("abc"), 0), 0);
    assert_eq!(match_cfws(&cs("  abc"), 0), 2);
    assert_eq!(match_cfws(&cs(" (x) \r\n (y)abc"), 0), 11);
    assert_eq!(match_cfws(&cs(" (x) (y"), 0), 5);
    assert_eq!(match_cfws(&cs(" \r\nabc"), 0), 1);
    assert_eq!(match_cfws(&cs("ab "), 2), 3);
    assert_eq!(match_cfws(&cs("ab "), 3), 3);
}

#[test]
fn atoms_and_words() {
    assert_eq!(match_atext_run(&cs("abc.d"), 0), 3);
    assert_eq!(match_atext_run(&cs(".d"), 0), 0);
    assert_eq!(match_atom(&cs(" abc .d"), 0), Some(5));
    assert_eq!(match_atom(&cs(" .d"), 0), None);
    assert_eq!(match_dot_atom(&cs("a.b.c d"), 0), Some(6));
    assert_eq!(match_dot_atom(&cs("a..b"), 0), Some(1));
    assert_eq!(match_dot_atom(&cs("a. b"), 0), Some(1));
    assert_eq!(match_dot_atom(&cs("\"a\""), 0), None);
    assert_eq!(match_quoted_string(&cs(" \"a b\" c"), 0), Some(7));
    assert_eq!(match_quoted_string(&cs("\"a\\\"b\"c"), 0), Some(6));
    assert_eq!(match_quoted_string(&cs("\"a"), 0), None);
    assert_eq!(match_quoted_string(&cs("a"), 0), None);
    assert_eq!(match_word(&cs("ab@"), 0), Some(2));
    assert_eq!(match_word(&cs("\"ab\"@"), 0), Some(4));
    assert_eq!(match_word(&cs("@"), 0), None);
}

#[test]
fn labels_and_segments() {
    assert_eq!(match_label(&cs("abc.de"), 0), Some(3));
    assert_eq!(match_label(&cs("a-b--c.de"), 0), Some(6));
    assert_eq!(match_label(&cs("a"), 0), Some(1));
    assert_eq!(match_label(&cs("abc-.de"), 0), None);
    assert_eq!(match_label(&cs("-abc"), 0), None);
    assert_eq!(match_label(&cs("a-"), 0), None);
    assert_eq!(match_label(&cs("abc"), 3), None);
    assert_eq!(match_spaced_label(&cs(" abc .de"), 0), Some(5));
    assert_eq!(match_spaced_label(&cs(" -abc"), 0), None);
    assert_eq!(match_segment(Segment::Label, &cs(" abc"), 0), None);
    assert_eq!(match_segment(Segment::SpacedLabel, &cs(" abc"), 0), Some(4));
    assert_eq!(match_segment(Segment::Word, &cs(" a_c "), 0), Some(5));
    assert_eq!(match_dotted_tail(Segment::Label, &cs("a.b.c.-d"), 1), 5);
    assert_eq!(match_dotted_tail(Segment::Label, &cs("a.b .c"), 1), 3);
    assert_eq!(match_dotted_tail(Segment::SpacedLabel, &cs("a.b .c"), 1), 6);
    assert_eq!(match_dotted_tail(Segment::Word, &cs("a.\"b\". c.@"), 1), 8);
    assert_eq!(match_dotted_tail(Segment::Word, &cs("a"), 1), 1);
}

#[test]
fn local_parts_and_domains() {
    assert_eq!(match_local_part(&cs("a.b@c"), 0), Some(3));
    assert_eq!(match_local_part(&cs("\"a\"@c"), 0), Some(3));
    assert_eq!(match_local_part(&cs("a .b@c"), 0), Some(2));
    assert_eq!(match_local_part_obs(&cs("a .b@c"), 0), Some(4));
    assert_eq!(match_local_part_obs(&cs("@c"), 0), None);
    assert_eq!(match_domain(&cs("a@b.c"), 2), Some(5));
    assert_eq!(match_domain(&cs("a@[b.c]"), 2), Some(7));
    assert_eq!(match_domain(&cs("a@b-.c"), 2), None);
    assert_eq!(match_domain(&cs("a@b.c-"), 2), Some(3));
    assert_eq!(match_domain_obs(&cs("a@ b . c "), 2), Some(9));
    assert_eq!(match_domain_obs(&cs("a@ [b] "), 2), Some(7));
    assert_eq!(match_domain_literal(&cs("[a b]"), 0), Some(5));
    assert_eq!(match_domain_literal(&cs("[]"), 0), Some(2));
    assert_eq!(match_domain_literal(&cs("[a\\]]"), 0), Some(5));
    assert_eq!(match_domain_literal(&cs("[a[]"), 0), None);
    assert_eq!(match_domain_literal(&cs("[a"), 0), None);
}

#[test]
fn address_rules_give_the_separator() {
    assert_eq!(match_address(&cs("foo@bar.com"), false), Some(3));
    assert_eq!(match_address(&cs("foo@bar.com"), true), Some(3));
    assert_eq!(match_address(&cs("\"a@b\"@c"), false), Some(5));
    assert_eq!(match_address(&cs("a . b@c"), false), None);
    assert_eq!(match_address(&cs("a . b@c"), true), Some(5));
    assert_eq!(match_address(&cs("a@b c"), true), None);
    assert_eq!(match_address(&cs(""), true), None);
}

#[test]
fn address_match_holds_both_spans() {
    let s = to_chars(" test @iana.org");
    assert_eq!(
        match_address_rule(&s, false),
        Some(AddressMatch {
            rule: Rule::AddressSingle,
            local_part: Span { rule: Rule::LocalPart, start: 0, end: 6 },
            domain: Span { rule: Rule::Domain, start: 7, end: 15 },
        })
    );
    let s = to_chars("test@ iana .com");
    assert_eq!(match_address_rule(&s, false), None);
    assert_eq!(
        match_address_rule(&s, true),
        Some(AddressMatch {
            rule: Rule::AddressSingleObs,
            local_part: Span { rule: Rule::LocalPartObs, start: 0, end: 4 },
            domain: Span { rule: Rule::DomainObs, start: 5, end: 15 },
        })
    );
    assert_eq!(EmailAddress::match_input(&s, true), None);
    assert_eq!(EmailAddress::match_input(&s, false), match_address_rule(&s, true));
    let s = to_chars("foo@bar.com");
    assert_eq!(EmailAddress::match_input(&s, false), match_address_rule(&s, false));
    assert_eq!(EmailAddress::match_input(&s, true), match_address_rule(&s, false));
}

#[test]
fn extract_copies_the_text_under_the_spans() {
    let m = AddressMatch {
        rule: Rule::AddressSingle,
        local_part: Span { rule: Rule::LocalPart, start: 0, end: 5 },
        domain: Span { rule: Rule::Domain, start: 6, end: 9 },
    };
    let a = EmailAddress::extract("h\u{e9}llo@x.y", &m);
    assert_eq!(a.get_local_part(), "h\u{e9}llo");
    assert_eq!(a.get_domain(), "x.y");
    let m = AddressMatch {
        rule: Rule::AddressSingle,
        local_part: Span { rule: Rule::LocalPart, start: 1, end: 1 },
        domain: Span { rule: Rule::Domain, start: 2, end: 4 },
    };
    let a = EmailAddress::extract("abcdef", &m);
    assert_eq!(a.get_local_part(), "");
    assert_eq!(a.get_domain(), "cd");
}

#[test]
fn rules_on_characters() {
    assert_eq!(match_rule_chars(Rule::AddressSingle, &cs("a@b")), Some(3));
    assert_eq!(match_rule_chars(Rule::AddressSingleObs, &cs("a . b@c")), Some(7));
    assert_eq!(match_rule_chars(Rule::LocalPart, &cs("a@b")), Some(1));
    assert_eq!(match_rule_chars(Rule::LocalPartObs, &cs("a@b")), Some(1));
    assert_eq!(match_rule_chars(Rule::Domain, &cs("a@b")), Some(1));
    assert_eq!(match_rule_chars(Rule::DomainObs, &cs("a@b")), Some(1));
    assert_eq!(match_rule_chars(Rule::DomainComplete, &cs("a@b")), None);
    assert_eq!(match_rule_chars(Rule::DomainLiteral, &cs("[a]@b")), Some(3));
}
