//! The formatting engine as the pool sees it: an opaque capability with one
//! operation, supplied through a factory and owned by exactly one worker.

use vstd::prelude::*;
use vstd::string::StringExecFns;

use crate::channel::FormatRequest;

verus! {

/// What one formatting call produced, at the specification level.
pub enum FormatOutcome {
    /// The engine had no change to make (or does not apply to the file).
    Unchanged,
    /// The engine produced this formatted text.
    Formatted(Seq<char>),
    /// The engine failed on this input with this message.
    Failed(Seq<char>),
}

/// The outcome an engine's raw result stands for.
pub open spec fn outcome_of(result: Result<Option<String>, String>) -> FormatOutcome {
    match result {
        Ok(None) => FormatOutcome::Unchanged,
        Ok(Some(text)) => FormatOutcome::Formatted(text@),
        Err(message) => FormatOutcome::Failed(message@),
    }
}

/// A formatting engine. Creating one is expensive (seconds of startup,
/// hundreds of megabytes), and an instance must only ever be driven from
/// one worker at a time; the pool's whole protocol exists to guarantee
/// that. Implementors describe their behaviour with the two spec functions,
/// so that everything the pool promises about replies follows from them.
pub trait Formatter: Sized {
    /// The state a freshly created engine starts in.
    spec fn create_spec() -> Self;

    /// The reply this engine state gives to a request.
    spec fn response_spec(&self, request: FormatRequest) -> FormatOutcome;

    /// The state the engine is in after serving a request.
    spec fn next_spec(&self, request: FormatRequest) -> Self;

    /// The factory: builds one new engine instance.
    fn create() -> (formatter: Self)
        ensures
            formatter == Self::create_spec(),
    ;

    /// Formats one request. A failure is local to the request: the engine
    /// remains usable afterwards.
    fn format_text(&mut self, request: &FormatRequest) -> (result: Result<Option<String>, String>)
        ensures
            outcome_of(result) == old(self).response_spec(*request),
            *final(self) == old(self).next_spec(*request),
    ;
}

/// A deterministic engine that returns every file's text unchanged as its
/// formatted output. It stands in for an expensive external engine where a
/// predictable one is wanted, and exercises the pool end to end.
pub struct EchoFormatter {
    /// How many requests this instance has served.
    pub served: u64,
}

impl Formatter for EchoFormatter {
    open spec fn create_spec() -> Self {
        EchoFormatter { served: 0 }
    }

    open spec fn response_spec(&self, request: FormatRequest) -> FormatOutcome {
        FormatOutcome::Formatted(request.file_text@)
    }

    open spec fn next_spec(&self, request: FormatRequest) -> Self {
        EchoFormatter { served: if self.served < u64::MAX { (self.served + 1) as u64 } else { self.served } }
    }

    fn create() -> (formatter: Self) {
        EchoFormatter { served: 0 }
    }

    fn format_text(&mut self, request: &FormatRequest) -> (result: Result<Option<String>, String>) {
        if self.served < u64::MAX {
            self.served = self.served + 1;
        }
        Ok(Some(request.file_text.clone()))
    }
}

/// A deterministic engine that fails on empty input and otherwise returns
/// the text unchanged: a failure is local to its request, so it exercises
/// the pool's error reply path without ending the worker.
pub struct StrictFormatter {}

impl Formatter for StrictFormatter {
    open spec fn create_spec() -> Self {
        StrictFormatter {  }
    }

    open spec fn response_spec(&self, request: FormatRequest) -> FormatOutcome {
        if request.file_text@.len() == 0 {
            FormatOutcome::Failed("nothing to format"@)
        } else {
            FormatOutcome::Formatted(request.file_text@)
        }
    }

    open spec fn next_spec(&self, request: FormatRequest) -> Self {
        StrictFormatter {  }
    }

    fn create() -> (formatter: Self) {
        StrictFormatter {  }
    }

    fn format_text(&mut self, request: &FormatRequest) -> (result: Result<Option<String>, String>) {
        if request.file_text.as_str().is_empty() {
            Err(String::from_str("nothing to format"))
        } else {
            Ok(Some(request.file_text.clone()))
        }
    }
}

} // verus!
