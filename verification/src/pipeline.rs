//! The two invokable generators, each a whole text-to-text pipeline: parse,
//! transform, emit. Each invocation is atomic: it yields the full replacement
//! fragment, or an error and no fragment at all.

use vstd::prelude::*;

use crate::adapter::{block_text, emit, emit_block, parse};
use crate::grammar::{emit_def, parse_def};
use crate::injector::{inject, injected};
use crate::model::GenError;
use crate::synthesizer::synthesize;

verus! {

/// Derives the capability interface for the type a fragment declares: the
/// text of the implementation block, generated from the declared name alone.
/// No output is produced for a fragment that does not parse.
pub fn game_actor_derive(fragment: &str) -> (r: Result<String, GenError>)
    ensures
        match parse_def(fragment@) {
            Some(d) => r matches Ok(out) && out@ == block_text(d.name),
            None => r == Err::<String, GenError>(GenError::MalformedSyntax),
        },
{
    match parse(fragment) {
        Ok(def) => {
            let block = synthesize(&def);
            Ok(emit_block(&block))
        },
        Err(e) => Err(e),
    }
}

/// Adds the two capability fields to the record a fragment declares and
/// re-emits the whole declaration. A fragment that does not parse, or that
/// declares anything but a record, is rejected, and no output is produced.
pub fn add_game_actor_attributes(fragment: &str) -> (r: Result<String, GenError>)
    ensures
        match parse_def(fragment@) {
            Some(d) => if d.kind is Record {
                r matches Ok(out) && out@ == emit_def(injected(d))
            } else {
                r == Err::<String, GenError>(GenError::NotARecordType)
            },
            None => r == Err::<String, GenError>(GenError::MalformedSyntax),
        },
{
    match parse(fragment) {
        Ok(def) => match inject(def) {
            Ok(with_fields) => Ok(emit(&with_fields)),
            Err(e) => Err(e),
        },
        Err(e) => Err(e),
    }
}

} // verus!
