//! The interface synthesizer: from a parsed type definition it produces the
//! implementation block of the capability interface for that definition's
//! name. The block's text depends on the name alone: the field accessors are
//! generated by literal name splice, not by lookup, so a definition that
//! lacks `health` or `mana` is not detected here — the generated text then
//! references undefined fields and only a later compilation stage fails.

use vstd::prelude::*;

use crate::model::{GeneratedBlock, TypeDefinition};

verus! {

/// Generates the capability-interface implementation block for `def`. Total:
/// that `def` already carries the two capability fields is an invariant its
/// callers maintain by injecting first, deliberately not checked here.
pub fn synthesize(def: &TypeDefinition) -> (r: GeneratedBlock)
    ensures
        r@ == def@.name,
{
    GeneratedBlock { implementor: def.name.clone() }
}

} // verus!
