//! A path value with Unix-family semantics: joining appends behind a slash
//! unless the new component is itself absolute.

use vstd::prelude::*;
use vstd::string::StrSliceExecFns;
use vstd::string::StringExecFns;

use crate::strutil::str_copy;

verus! {

/// A filesystem path held as text.
#[derive(Debug)]
pub struct SafePath {
    inner: String,
}

/// Whether a path is absolute: it starts with the separator.
pub open spec fn spec_is_absolute(path: Seq<char>) -> bool {
    path.len() > 0 && path[0] == '/'
}

/// Joining appends behind a separator; an absolute component replaces the
/// base, and an empty base disappears.
pub open spec fn spec_join(base: Seq<char>, component: Seq<char>) -> Seq<char> {
    if spec_is_absolute(component) {
        component
    } else if base.len() == 0 {
        component
    } else if base.last() == '/' {
        base + component
    } else {
        base + "/"@ + component
    }
}

impl SafePath {
    /// The path's text.
    pub closed spec fn spec_path(&self) -> Seq<char> {
        self.inner@
    }

    /// A path from its text.
    pub fn new(path: &str) -> (r: SafePath)
        ensures
            r.spec_path() == path@,
    {
        SafePath { inner: str_copy(path) }
    }

    /// The path extended by one component.
    pub fn join(&self, component: &str) -> (r: SafePath)
        ensures
            r.spec_path() == spec_join(self.spec_path(), component@),
    {
        let clen: usize = component.unicode_len();
        if clen > 0 && component.get_char(0) == '/' {
            return SafePath { inner: str_copy(component) };
        }
        let blen: usize = self.inner.as_str().unicode_len();
        if blen == 0 {
            return SafePath { inner: str_copy(component) };
        }
        let mut joined = str_copy(self.inner.as_str());
        if self.inner.as_str().get_char(blen - 1) != '/' {
            joined.append("/");
        }
        joined.append(component);
        SafePath { inner: joined }
    }

    /// The path's text.
    pub fn to_string(&self) -> (r: String)
        ensures
            r@ == self.spec_path(),
    {
        str_copy(self.inner.as_str())
    }

    /// Whether the path is absolute.
    pub fn is_absolute(&self) -> (r: bool)
        ensures
            r == spec_is_absolute(self.spec_path()),
    {
        let len: usize = self.inner.as_str().unicode_len();
        len > 0 && self.inner.as_str().get_char(0) == '/'
    }

    /// The path unchanged: the text form is already canonical for this
    /// library's Unix-family separator rules.
    pub fn normalize(&self) -> (r: SafePath)
        ensures
            r.spec_path() == self.spec_path(),
    {
        SafePath { inner: str_copy(self.inner.as_str()) }
    }

    /// The separator this library builds paths with.
    pub fn platform_separator() -> (r: &'static str)
        ensures
            r@ == "/"@,
    {
        "/"
    }
}

} // verus!
