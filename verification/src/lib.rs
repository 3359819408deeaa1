//! Validation and decomposition of e-mail addresses after the Internet
//! Message Format.
//!
//! [`EmailAddress::parse`] takes a text and gives the address that it
//! spells, as a local part and a domain, or nothing. In strict mode only
//! the current grammar is accepted; in permissive mode the obsolete
//! grammar is tried where the current one does not match.
//!
//! # The grammar
//!
//! Alternatives are ordered (`/`), repetition (`*`, `+`) is greedy, and
//! `[x]` is optional.
//!
//! ```text
//! address         = local-part "@" domain          ; the whole input
//! address-obs     = local-part-obs "@" domain-obs  ; the whole input
//!
//! local-part      = dot-atom / quoted-string
//! local-part-obs  = word *("." word)
//! domain          = domain-name / domain-literal
//! domain-obs      = domain-name-obs / domain-literal
//!
//! dot-atom        = [CFWS] 1*atext *("." 1*atext) [CFWS]
//! word            = atom / quoted-string
//! atom            = [CFWS] 1*atext [CFWS]
//! quoted-string   = [CFWS] DQUOTE *([FWS] (qtext / quoted-pair)) [FWS] DQUOTE [CFWS]
//! domain-name     = [CFWS] label *("." label) [CFWS]
//! domain-name-obs = [CFWS] label [CFWS] *("." [CFWS] label [CFWS])
//! label           = the longest run of letters, digits and "-",
//!                   neither beginning nor ending with "-"
//! domain-literal  = [CFWS] "[" *([FWS] (dtext / quoted-pair)) [FWS] "]" [CFWS]
//!
//! CFWS            = 1*(FWS / comment)
//! comment         = "(" *([FWS] (ctext / quoted-pair / comment)) [FWS] ")"
//! FWS             = 1*([CRLF] WSP)
//! quoted-pair     = "\" any ASCII character
//! ```
//!
//! A local part and a domain keep the white space and the comments that
//! the grammar allows around them, so that local part, `@` and domain, put
//! together, are the input again.
//!
//! # Cost
//!
//! The matchers are loops, not recursive functions: comments may nest to
//! any depth on a stack of constant size, and no rule looks at a character
//! more than a fixed number of times.

pub mod chars;
pub mod email_address;
pub mod grammar;
pub mod lexical;
pub mod matcher;

pub use email_address::EmailAddress;
