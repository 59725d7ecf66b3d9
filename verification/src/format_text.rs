//! A minimal formatting path through an embedded script engine: evaluate a
//! fixed script and return the written-out form of its value.

use vstd::prelude::*;
use vstd::string::StringExecFns;

use crate::config::PrettierConfig;

verus! {

/// Evaluates a script in a fresh engine context and writes out its value.
///
/// Relies on quick_js::Context::{new, eval}. Nothing is promised of the
/// outcome: starting the engine can fail, and a script's value need not be
/// a function of its text.
#[verifier::external_body]
fn eval_script(script: &str) -> (value_repr: Option<String>) {
    match quick_js::Context::new() {
        Ok(context) => match context.eval(script) {
            Ok(value) => Some(format!("{:?}", value)),
            Err(_) => None,
        },
        Err(_) => None,
    }
}

/// The error reported when the script engine gives no value.
pub open spec fn engine_unavailable_message() -> Seq<char> {
    "the script engine gave no value"@
}

/// What the formatting result is for each possible engine outcome: the
/// written-out value on success, the engine-unavailable error otherwise.
pub fn format_eval_outcome(value_repr: Option<String>) -> (result: Result<String, String>)
    ensures
        match value_repr {
            Some(v) => result == Ok::<String, String>(v),
            None => result matches Err(m) && m@ == engine_unavailable_message(),
        },
{
    match value_repr {
        Some(v) => Ok(v),
        None => Err(String::from_str("the script engine gave no value")),
    }
}

/// Formats one file's text: evaluates the fixed probe script in a fresh
/// engine context and reports its value, or the engine-unavailable error.
pub fn format_text(file_text: &str, config: &PrettierConfig) -> (result: Result<String, String>)
    ensures
        result matches Err(m) ==> m@ == engine_unavailable_message(),
{
    let value_repr = eval_script("1 + 2");
    format_eval_outcome(value_repr)
}

} // verus!
