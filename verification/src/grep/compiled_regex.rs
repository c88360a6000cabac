//! A compiled regular expression that can only be made from its own pattern.
use vstd::prelude::*;
use vstd::string::StringExecFns;
use super::{regex_compiles, regex_new};

verus! {

/// A compiled regular expression, kept together with the pattern it was compiled from.
/// Its fields are private to this module, so `CompiledRegex::new` is the only way to
/// make one: the regex it holds is always the one compiled from its pattern.
pub struct CompiledRegex {
    regex: regex::Regex,
    pattern: String,
}

impl CompiledRegex {
    /// Every `CompiledRegex` holds a pattern that compiles.
    #[verifier::type_invariant]
    spec fn compiles(self) -> bool {
        regex_compiles(self.pattern@)
    }

    /// The pattern this regex was compiled from.
    pub closed spec fn source(&self) -> Seq<char> {
        self.pattern@
    }

    /// Compiles `pattern`; `None` when `regex::Regex::new` refuses it.
    pub fn new(pattern: &str) -> (r: Option<CompiledRegex>)
        ensures
            r is Some <==> regex_compiles(pattern@),
            r matches Some(c) ==> c.source() == pattern@,
    {
        match regex_new(pattern) {
            Ok(regex) => Some(CompiledRegex { regex, pattern: pattern.to_string() }),
            Err(_) => None,
        }
    }

    /// The pattern this regex was compiled from (a pattern that compiles).
    pub fn as_str(&self) -> (s: &str)
        ensures
            s@ == self.source(),
            regex_compiles(s@),
    {
        proof {
            use_type_invariant(self);
        }
        self.pattern.as_str()
    }

    /// The compiled regex, as `CompiledRegex::new` made it from `source()`.
    pub(crate) fn compiled(&self) -> &regex::Regex {
        &self.regex
    }
}

} // verus!
