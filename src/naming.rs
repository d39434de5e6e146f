//! Environment-variable names derived from field identifiers.
use vstd::prelude::*;

verus! {

/// What `str::to_uppercase` makes of a character sequence.
pub uninterp spec fn upper_of(s: Seq<char>) -> Seq<char>;

/// Relies on `str::to_uppercase`: the result depends on the characters alone.
#[verifier::external_body]
fn uppercase(s: &str) -> (r: String)
    ensures
        r@ == upper_of(s@),
{
    s.to_uppercase()
}

/// The rule by which field identifiers become environment-variable keys.
#[derive(Debug, Clone, PartialEq, Eq)]
pub struct NamingConvention {
    pub prefix: String,
    pub suffix: String,
}

/// The key of a field: prefix, then the upper-cased identifier, then suffix.
pub open spec fn derived_name(identifier: Seq<char>, prefix: Seq<char>, suffix: Seq<char>) -> Seq<
    char,
> {
    prefix + upper_of(identifier) + suffix
}

impl NamingConvention {
    /// A convention with the given prefix and suffix.
    pub fn new(prefix: &str, suffix: &str) -> (r: NamingConvention)
        ensures
            r.prefix@ == prefix@,
            r.suffix@ == suffix@,
    {
        NamingConvention { prefix: String::from_str(prefix), suffix: String::from_str(suffix) }
    }

    /// The convention with neither prefix nor suffix.
    pub fn plain() -> (r: NamingConvention)
        ensures
            r.prefix@ == Seq::<char>::empty(),
            r.suffix@ == Seq::<char>::empty(),
    {
        NamingConvention { prefix: String::new(), suffix: String::new() }
    }
}

/// Derives the environment-variable key of the field named `identifier`.
pub fn derive_name(identifier: &str, convention: &NamingConvention) -> (r: String)
    ensures
        r@ == derived_name(identifier@, convention.prefix@, convention.suffix@),
{
    let upper = uppercase(identifier);
    let mut name = convention.prefix.clone();
    name.append(upper.as_str());
    name.append(convention.suffix.as_str());
    name
}

} // verus!
