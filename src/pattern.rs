//! Wildcard patterns over raw file-name bytes.
//!
//! Compilation and matching are done by the `wildcard` crate, with its default
//! configuration: `*` matches any run of bytes, `?` matches one byte, and `\`
//! escapes one of these three symbols.

use vstd::prelude::*;
use vstd::string::*;

verus! {

/// The escape symbol, `\`.
pub const ESCAPE: u8 = 0x5c;

/// The symbol that matches any run of bytes, `*`.
pub const ANY: u8 = 0x2a;

/// The symbol that matches exactly one byte, `?`.
pub const ONE: u8 = 0x3f;

/// Whether `s` is one of the symbols that may follow an escape.
pub open spec fn is_special(s: u8) -> bool {
    s == ANY || s == ONE || s == ESCAPE
}

/// A pattern is well formed when every escape is followed by a special
/// symbol; in particular it does not end in an unfinished escape.
pub open spec fn well_formed(p: Seq<u8>) -> bool
    decreases p.len(),
{
    if p.len() == 0 {
        true
    } else if p[0] == ESCAPE {
        p.len() >= 2 && is_special(p[1]) && well_formed(p.subrange(2, p.len() as int))
    } else {
        well_formed(p.subrange(1, p.len() as int))
    }
}

/// Whether the name `name` is matched by the well-formed pattern `pattern`.
pub uninterp spec fn wildcard_match(pattern: Seq<u8>, name: Seq<u8>) -> bool;

/// Relies on `wildcard::Wildcard::new`, which returns `Ok` exactly when every
/// escape symbol of the pattern is followed by `*`, `?` or the escape symbol.
#[verifier::external_body]
fn wildcard_compiles(pattern: &[u8]) -> (r: bool)
    ensures
        r == well_formed(pattern@),
{
    wildcard::Wildcard::new(pattern).is_ok()
}

/// Relies on `wildcard::Wildcard::is_match`: its answer depends on the
/// pattern and the name alone.
#[verifier::external_body]
fn wildcard_is_match(pattern: &[u8], name: &[u8]) -> (r: bool)
    requires
        well_formed(pattern@),
    ensures
        r == wildcard_match(pattern@, name@),
{
    match wildcard::Wildcard::new(pattern) {
        Ok(w) => w.is_match(name),
        Err(_) => false,
    }
}

/// A pattern that was rejected when it was registered.
#[derive(Debug, Clone, PartialEq, Eq)]
pub struct PatternError {
    pub pattern: String,
}

/// A compiled, well-formed wildcard pattern.
#[derive(Debug)]
pub struct Pattern {
    bytes: Vec<u8>,
}

impl Pattern {
    /// The pattern's bytes.
    pub closed spec fn view(&self) -> Seq<u8> {
        self.bytes@
    }

    /// Every pattern is well formed.
    #[verifier::type_invariant]
    spec fn inv(&self) -> bool {
        well_formed(self.bytes@)
    }

    /// Compiles `text`; fails exactly when it is not well formed.
    pub fn new(text: &str) -> (r: Result<Pattern, PatternError>)
        ensures
            r is Ok <==> well_formed(text.spec_bytes()),
            r matches Ok(p) ==> p@ == text.spec_bytes(),
            r matches Err(e) ==> e.pattern@ == text@,
    {
        let bytes = text.as_bytes_vec();
        if wildcard_compiles(bytes.as_slice()) {
            Ok(Pattern { bytes })
        } else {
            Err(PatternError { pattern: text.to_owned() })
        }
    }

    /// Whether `name` is matched by this pattern.
    pub fn is_match(&self, name: &[u8]) -> (r: bool)
        ensures
            r == wildcard_match(self@, name@),
    {
        proof {
            use_type_invariant(self);
        }
        wildcard_is_match(self.bytes.as_slice(), name)
    }
}

} // verus!
