//! The schema identifier: an opaque string key naming a message's encoding
//! contract. The router never interprets it beyond exact equality.

use vstd::prelude::*;

verus! {

/// An opaque string key identifying a message's encoding contract.
#[derive(Clone, Debug, PartialEq, Eq)]
pub struct SchemaIdentifier {
    pub val: String,
}

impl View for SchemaIdentifier {
    type V = Seq<char>;

    open spec fn view(&self) -> Seq<char> {
        self.val@
    }
}

impl SchemaIdentifier {
    pub fn new(val: String) -> (r: SchemaIdentifier)
        ensures
            r@ == val@,
    {
        SchemaIdentifier { val }
    }
}

/// Read a value out as the text the router compares.
pub trait AsStringer {
    /// The text this value stands for.
    spec fn spec_string(&self) -> Seq<char>;

    /// Hands the text out for comparison or display.
    fn as_string(&self) -> (r: &str)
        ensures
            r@ == self.spec_string(),
    ;
}

impl AsStringer for SchemaIdentifier {
    open spec fn spec_string(&self) -> Seq<char> {
        self.val@
    }

    fn as_string(&self) -> (r: &str) {
        self.val.as_str()
    }
}

/// The single rule governing all routing: a module is addressed when the
/// message declares no destination at all (broadcast), or when the declared
/// destination equals the module's schema exactly.
pub open spec fn spec_matches(destination: Option<Seq<char>>, module_schema: Seq<char>) -> bool {
    match destination {
        None => true,
        Some(d) => d == module_schema,
    }
}

/// Decides whether a module with schema `module_schema` is addressed by a
/// message destined for `destination`.
pub fn matches(destination: &Option<SchemaIdentifier>, module_schema: &SchemaIdentifier) -> (r:
    bool)
    ensures
        r == spec_matches(
            match destination {
                Some(d) => Some(d@),
                None => None,
            },
            module_schema@,
        ),
{
    match destination {
        None => true,
        Some(d) => d.val == module_schema.val,
    }
}

} // verus!
