//! Host-platform constants. This library targets Unix-family hosts, so the
//! separator and line ending are fixed.

use vstd::prelude::*;

use crate::strutil::str_copy;

verus! {

/// The name of the platform family this library is built for.
pub fn get_platform_name() -> (r: &'static str)
    ensures
        r@ == "linux"@,
{
    "linux"
}

/// The line ending written into generated text.
pub fn line_ending() -> (r: String)
    ensures
        r@ == "\n"@,
{
    str_copy("\n")
}

/// The separator between path components.
pub fn platform_path_separator() -> (r: &'static str)
    ensures
        r@ == "/"@,
{
    "/"
}

} // verus!
