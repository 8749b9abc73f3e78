//! Templates of system prompts.

use vstd::prelude::*;

use crate::text;
use crate::text::contains_text;

verus! {

/// The variables that `minijinja::Template::undeclared_variables` finds in the
/// template with this source, nested look-ups left aside.
pub uninterp spec fn undeclared_variables(source: Seq<char>) -> Set<Seq<char>>;

/// Calls `minijinja::Template::undeclared_variables` on the template with this
/// source, and lists the names that it finds. Which names these are is determined by
/// the source, but not their order; a source that is no template has none.
#[verifier::external_body]
fn undeclared(source: &str) -> (r: Vec<String>)
    ensures
        text::texts(r@).to_set() == undeclared_variables(source@),
{
    match minijinja::Environment::new().template_from_str(source) {
        Ok(template) => template.undeclared_variables(false).into_iter().collect(),
        Err(_) => Vec::new(),
    }
}

/// Whether the template with this source looks up the variable `name`.
pub fn mentions(source: &str, name: &str) -> (r: bool)
    ensures
        r == undeclared_variables(source@).contains(name@),
{
    contains_text(&undeclared(source), name)
}

} // verus!
