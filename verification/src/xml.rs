//! A reader for a small XML subset: one root element with attributes,
//! nested child elements and character data. In strict mode a closing tag
//! must repeat its opening tag's name; outside it, any closing tag closes
//! the innermost open element.

use vstd::prelude::*;
use vstd::string::StrSliceExecFns;

use crate::strutil::push_char;
use crate::strutil::str_eq;

verus! {

/// One parsed element: its name, attributes, children, and the character
/// data found directly inside it.
#[derive(Debug)]
pub struct XmlNode {
    pub name: String,
    pub attributes: Vec<(String, String)>,
    pub children: Vec<XmlNode>,
    pub text: String,
}

/// A malformed document.
#[derive(Clone, Copy, Debug, PartialEq, Eq, Structural)]
pub enum XmlError {
    UnexpectedEnd,
    MalformedTag,
    MismatchedClosingTag,
}

/// Reads documents of the XML subset.
#[derive(Clone, Copy, Debug)]
pub struct XmlParser {
    strict_mode: bool,
}

/// Whether the character can stand in an element or attribute name.
fn is_name_char(c: char) -> bool {
    (c >= 'a' && c <= 'z') || (c >= 'A' && c <= 'Z') || (c >= '0' && c <= '9') || c == '_' || c
        == '-' || c == ':'
}

/// Whether the character is skipped between tokens.
fn is_space_char(c: char) -> bool {
    c == ' ' || c == '\t' || c == '\r' || c == '\n'
}

impl XmlParser {
    /// Whether closing tags must repeat their opening tag's name.
    pub closed spec fn spec_strict(&self) -> bool {
        self.strict_mode
    }

    /// A lenient reader.
    pub fn new() -> (r: XmlParser)
        ensures
            !r.spec_strict(),
    {
        XmlParser { strict_mode: false }
    }

    /// Reads the document's root element; anything after it is ignored.
    pub fn parse(&self, input: &str) -> (r: Result<XmlNode, XmlError>) {
        let len: usize = input.unicode_len();
        let start = skip_space(input, 0);
        if start >= len || input.get_char(start) != '<' {
            return Err(XmlError::MalformedTag);
        }
        match self.parse_element(input, start) {
            Ok((node, _)) => Ok(node),
            Err(error) => Err(error),
        }
    }

    /// Reads one element starting at the `<` of its opening tag; on success
    /// the returned position stands just past the element.
    fn parse_element(&self, s: &str, pos: usize) -> (r: Result<(XmlNode, usize), XmlError>)
        requires
            pos < s@.len(),
        ensures
            r matches Ok((node, end)) ==> pos < end <= s@.len(),
        decreases s@.len() - pos,
    {
        let len: usize = s.unicode_len();
        if s.get_char(pos) != '<' {
            return Err(XmlError::MalformedTag);
        }
        let mut at: usize = pos + 1;
        let (name, after_name) = scan_name(s, at);
        if after_name == at {
            return Err(XmlError::MalformedTag);
        }
        at = after_name;
        let mut attributes: Vec<(String, String)> = Vec::new();
        loop
            invariant
                pos < at <= s@.len(),
                len == s@.len(),
            ensures
                pos < at < s@.len(),
                s@[at as int] == '>' || s@[at as int] == '/',
            decreases len - at,
        {
            let ghost iter_start = at;
            at = skip_space_from(s, at, pos);
            if at >= len {
                return Err(XmlError::UnexpectedEnd);
            }
            let c = s.get_char(at);
            if c == '>' || c == '/' {
                assert(s@[at as int] == '>' || s@[at as int] == '/');
                break ;
            }
            let (attr_name, after_attr) = scan_name(s, at);
            if after_attr == at {
                return Err(XmlError::MalformedTag);
            }
            at = after_attr;
            if at >= len || s.get_char(at) != '=' {
                return Err(XmlError::MalformedTag);
            }
            at = at + 1;
            if at >= len || s.get_char(at) != '"' {
                return Err(XmlError::MalformedTag);
            }
            at = at + 1;
            let mut value = String::new();
            while at < len && s.get_char(at) != '"'
                invariant
                    pos < at <= len,
                    iter_start < at,
                    len == s@.len(),
                decreases len - at,
            {
                push_char(&mut value, s.get_char(at));
                at = at + 1;
            }
            if at >= len {
                return Err(XmlError::UnexpectedEnd);
            }
            at = at + 1;
            attributes.push((attr_name, value));
        }
        if s.get_char(at) == '/' {
            if at + 1 >= len || s.get_char(at + 1) != '>' {
                return Err(XmlError::MalformedTag);
            }
            let node = XmlNode { name, attributes, children: Vec::new(), text: String::new() };
            return Ok((node, at + 2));
        }
        at = at + 1;
        let mut children: Vec<XmlNode> = Vec::new();
        let mut text = String::new();
        loop
            invariant
                pos < at <= s@.len(),
                len == s@.len(),
            decreases len - at,
        {
            if at >= len {
                return Err(XmlError::UnexpectedEnd);
            }
            let c = s.get_char(at);
            if c == '<' {
                if at + 1 < len && s.get_char(at + 1) == '/' {
                    let close_start: usize = at + 2;
                    let (closing, after_closing) = scan_name(s, close_start);
                    if after_closing == close_start {
                        return Err(XmlError::MalformedTag);
                    }
                    if after_closing >= len || s.get_char(after_closing) != '>' {
                        return Err(XmlError::MalformedTag);
                    }
                    if self.strict_mode && !str_eq(closing.as_str(), name.as_str()) {
                        return Err(XmlError::MismatchedClosingTag);
                    }
                    let node = XmlNode { name, attributes, children, text };
                    return Ok((node, after_closing + 1));
                }
                match self.parse_element(s, at) {
                    Ok((child, end)) => {
                        children.push(child);
                        at = end;
                    },
                    Err(error) => {
                        return Err(error);
                    },
                }
            } else {
                push_char(&mut text, c);
                at = at + 1;
            }
        }
    }
}

/// The position after any run of blanks starting at `from`.
fn skip_space(s: &str, from: usize) -> (r: usize)
    ensures
        r <= s@.len(),
        from <= s@.len() ==> from <= r,
{
    let len: usize = s.unicode_len();
    let mut at: usize = if from > len {
        len
    } else {
        from
    };
    while at < len && is_space_char(s.get_char(at))
        invariant
            at <= len,
            from <= len ==> from <= at,
            len == s@.len(),
        decreases len - at,
    {
        at = at + 1;
    }
    at
}

/// Skips blanks without moving behind `floor`, for loop measures.
fn skip_space_from(s: &str, from: usize, floor: usize) -> (r: usize)
    requires
        floor < from <= s@.len(),
    ensures
        floor < r <= s@.len(),
        from <= r,
{
    skip_space(s, from)
}

/// Reads the name starting at `from`; an empty name means none was there.
fn scan_name(s: &str, from: usize) -> (r: (String, usize))
    ensures
        r.1 <= s@.len(),
        from <= s@.len() ==> from <= r.1,
{
    let len: usize = s.unicode_len();
    let mut at: usize = if from > len {
        len
    } else {
        from
    };
    let mut name = String::new();
    while at < len && is_name_char(s.get_char(at))
        invariant
            at <= len,
            from <= len ==> from <= at,
            len == s@.len(),
        decreases len - at,
    {
        push_char(&mut name, s.get_char(at));
        at = at + 1;
    }
    (name, at)
}

} // verus!
