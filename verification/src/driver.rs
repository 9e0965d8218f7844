//! Options for a compiler-driver run. The driver itself — file discovery,
//! parsing from disk, and output emission — belongs to the host around this
//! library; the options it is configured with are plain data.

use vstd::prelude::*;

use crate::strutil::str_copy;

verus! {

/// The knobs of one compiler invocation.
#[derive(Clone, Debug)]
pub struct CompilerOptions {
    pub optimization_level: u8,
    pub debug_info: bool,
    pub fail_on_error: bool,
    pub emit_warnings: bool,
    pub target_triple: String,
}

impl Default for CompilerOptions {
    /// The default configuration: no optimization, no debug info, stop on
    /// the first error, warnings on, targeting x86-64 Linux.
    fn default() -> (r: CompilerOptions)
        ensures
            r.optimization_level == 0,
            !r.debug_info,
            r.fail_on_error,
            r.emit_warnings,
            r.target_triple@ == "x86_64-unknown-linux-gnu"@,
    {
        CompilerOptions {
            optimization_level: 0,
            debug_info: false,
            fail_on_error: true,
            emit_warnings: true,
            target_triple: str_copy("x86_64-unknown-linux-gnu"),
        }
    }
}

} // verus!
