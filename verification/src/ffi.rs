//! Checks calls across the foreign-function boundary: unsafe foreign calls
//! are only allowed where the surrounding context opted in.

use vstd::prelude::*;

use crate::diagnostics::spec_span_eq;
use crate::diagnostics::CompileError;
use crate::diagnostics::ErrorKind;
use crate::diagnostics::Span;

verus! {

/// One call through the foreign-function interface.
#[derive(Debug)]
pub struct ForeignCall {
    pub is_safe: bool,
    pub span: Span,
}

/// Validates foreign calls against the context's unsafe policy.
#[derive(Debug)]
pub struct FFIChecker {
    allowed_unsafe: bool,
}

impl FFIChecker {
    /// Whether unsafe foreign calls are allowed here.
    pub closed spec fn spec_allowed_unsafe(&self) -> bool {
        self.allowed_unsafe
    }

    /// A checker for a context that does (or does not) allow unsafe calls.
    pub fn new(allowed_unsafe: bool) -> (r: FFIChecker)
        ensures
            r.spec_allowed_unsafe() == allowed_unsafe,
    {
        FFIChecker { allowed_unsafe }
    }

    /// Reports a single `Safety` diagnostic for an unsafe call in a context
    /// that has not opted in; anything else passes.
    pub fn check_foreign_call(&self, call: &ForeignCall) -> (r: Vec<CompileError>)
        ensures
            if !self.spec_allowed_unsafe() && !call.is_safe {
                r@.len() == 1 && r@[0].kind == ErrorKind::Safety && (r@[0].span matches Some(s)
                    && spec_span_eq(s, call.span)) && r@[0].message@
                    == "Unsafe foreign call not allowed in this context"@
            } else {
                r@.len() == 0
            },
    {
        let mut errors: Vec<CompileError> = Vec::new();
        if !self.allowed_unsafe && !call.is_safe {
            let error = CompileError::new(
                ErrorKind::Safety,
                "Unsafe foreign call not allowed in this context",
            ).with_span(call.span.duplicate());
            errors.push(error);
        }
        errors
    }
}

} // verus!
