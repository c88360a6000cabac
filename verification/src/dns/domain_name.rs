//! A domain name that can only be made by parsing its own text.
use trust_dns_client::proto::error::ProtoError;
use trust_dns_client::rr::domain::Name;
use vstd::prelude::*;
use super::{dns_name_valid, name_from_ascii};

verus! {

/// A parsed domain name, kept together with the text it was parsed from. Its fields
/// are private to this module, so `DomainName::parse` is the only way to make one:
/// the name it holds is always the one parsed from its text.
pub struct DomainName {
    name: Name,
    text: String,
}

impl DomainName {
    /// Every `DomainName` holds a text that parses as a domain name.
    #[verifier::type_invariant]
    spec fn valid(self) -> bool {
        dns_name_valid(self.text@)
    }

    /// The text this name was parsed from.
    pub closed spec fn text(&self) -> Seq<char> {
        self.text@
    }

    /// Parses `text` as a domain name.
    pub fn parse(text: &str) -> (r: Result<DomainName, ProtoError>)
        ensures
            r is Ok <==> dns_name_valid(text@),
            r matches Ok(d) ==> d.text() == text@,
    {
        match name_from_ascii(text) {
            Ok(name) => Ok(DomainName { name, text: text.to_string() }),
            Err(e) => Err(e),
        }
    }

    /// The text this name was parsed from (a text that parses as a domain name).
    pub fn as_str(&self) -> (s: &str)
        ensures
            s@ == self.text(),
            dns_name_valid(s@),
    {
        proof {
            use_type_invariant(self);
        }
        self.text.as_str()
    }

    /// The name as `trust_dns_proto` parsed it from `text()`.
    pub(crate) fn parsed(&self) -> &Name {
        &self.name
    }
}

} // verus!
