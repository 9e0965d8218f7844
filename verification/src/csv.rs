//! A delimiter-separated-values reader: rows split at line endings, fields
//! at a configurable delimiter; an optional header row is dropped. This
//! dialect has no quoting, so a parse cannot fail.

use vstd::prelude::*;
use vstd::string::StrSliceExecFns;

use crate::strutil::push_char;
use crate::types::name_views;

verus! {

/// The characters of one field: everything before the first separator.
pub open spec fn spec_field_len(s: Seq<char>, sep: char) -> nat
    decreases s.len(),
{
    if s.len() == 0 {
        0
    } else if s[0] == sep {
        0
    } else {
        1 + spec_field_len(s.drop_first(), sep)
    }
}

/// The first field never reaches past the end of the text.
proof fn lemma_field_len_le(s: Seq<char>, sep: char)
    ensures
        spec_field_len(s, sep) <= s.len(),
        forall|j: int| 0 <= j < spec_field_len(s, sep) ==> s[j] != sep,
        spec_field_len(s, sep) < s.len() ==> s[spec_field_len(s, sep) as int] == sep,
    decreases s.len(),
{
    if s.len() > 0 && s[0] != sep {
        lemma_field_len_le(s.drop_first(), sep);
        assert forall|j: int| 0 <= j < spec_field_len(s, sep) implies s[j] != sep by {
            if j > 0 {
                assert(s.drop_first()[j - 1] == s[j]);
            }
        }
    }
}

/// The text split at every separator; a text without one is a single field.
pub open spec fn spec_split(s: Seq<char>, sep: char) -> Seq<Seq<char>>
    decreases s.len(),
{
    let l = spec_field_len(s, sep);
    if l >= s.len() {
        seq![s]
    } else {
        seq![s.subrange(0, l as int)] + spec_split(s.subrange(l as int + 1, s.len() as int), sep)
    }
}

/// The lines of the text, split at newlines; a final line ending is
/// optional, and an empty text has no lines.
pub open spec fn spec_text_lines(s: Seq<char>) -> Seq<Seq<char>> {
    if s.len() == 0 {
        Seq::empty()
    } else if s.last() == '\n' {
        spec_split(s.drop_last(), '\n')
    } else {
        spec_split(s, '\n')
    }
}

/// The field views of a parsed row list.
pub open spec fn spec_rows_view(rows: Seq<Vec<String>>) -> Seq<Seq<Seq<char>>> {
    rows.map_values(|row: Vec<String>| name_views(row@))
}

/// The rows of a delimiter-separated text: each line split at the
/// delimiter, with the header row dropped when the reader expects one.
pub open spec fn spec_csv(input: Seq<char>, delimiter: char, has_headers: bool) -> Seq<
    Seq<Seq<char>>,
> {
    let rows = spec_text_lines(input).map_values(|line: Seq<char>| spec_split(line, delimiter));
    if has_headers && rows.len() > 0 {
        rows.drop_first()
    } else {
        rows
    }
}

/// This dialect has no malformed inputs, so no error is ever produced.
#[derive(Clone, Copy, Debug, PartialEq, Eq, Structural)]
pub enum CsvError {
    InvalidFormat,
}

/// Splits the text at every occurrence of the separator.
#[verifier::loop_isolation(false)]
fn split_on(s: &str, sep: char) -> (r: Vec<String>)
    ensures
        name_views(r@) == spec_split(s@, sep),
{
    let len: usize = s.unicode_len();
    let mut out: Vec<String> = Vec::new();
    let mut pos: usize = 0;
    proof {
        assert(s@.subrange(0, len as int) =~= s@);
    }
    loop
        invariant
            pos <= len,
            spec_split(s@, sep) =~= name_views(out@) + spec_split(
                s@.subrange(pos as int, len as int),
                sep,
            ),
        decreases len - pos,
    {
        let ghost suffix = s@.subrange(pos as int, len as int);
        proof {
            lemma_field_len_le(suffix, sep);
        }
        let mut j: usize = pos;
        let mut field = String::new();
        while j < len && s.get_char(j) != sep
            invariant
                pos <= j <= len,
                field@.len() == j - pos,
                forall|k: int| pos <= k < j ==> s@[k] != sep,
                forall|k: int| 0 <= k < field@.len() ==> field@[k] == s@[pos + k],
            decreases len - j,
        {
            push_char(&mut field, s.get_char(j));
            j = j + 1;
        }
        proof {
            let l = spec_field_len(suffix, sep);
            assert forall|k: int| 0 <= k < j - pos implies suffix[k] != sep by {
                assert(suffix[k] == s@[pos + k]);
            }
            if j < len {
                assert(suffix[j - pos] == s@[j as int]);
                assert(l == j - pos) by {
                    if l < j - pos {
                        assert(suffix[l as int] != sep);
                    }
                    if l > j - pos {
                        assert(suffix[(j - pos) as int] != sep);
                    }
                }
            } else {
                assert(l == suffix.len()) by {
                    if l < suffix.len() {
                        assert(suffix[l as int] == sep);
                        assert(suffix[l as int] == s@[pos + l]);
                    }
                }
            }
            assert(field@ =~= suffix.subrange(0, l as int));
        }
        let ghost before = out@;
        out.push(field);
        if j >= len {
            proof {
                assert(field@ =~= suffix);
                assert(spec_split(suffix, sep) =~= seq![suffix]);
                assert(name_views(out@) =~= name_views(before) + seq![suffix]);
                assert(name_views(out@) =~= spec_split(s@, sep));
            }
            return out;
        }
        proof {
            let l = spec_field_len(suffix, sep);
            assert(name_views(out@) =~= name_views(before).push(suffix.subrange(0, l as int)));
            assert(suffix.subrange(l as int + 1, suffix.len() as int) =~= s@.subrange(
                j + 1,
                len as int,
            ));
        }
        pos = j + 1;
    }
}

/// Reads delimiter-separated values.
#[derive(Clone, Copy, Debug)]
pub struct CsvParser {
    delimiter: char,
    has_headers: bool,
}

impl CsvParser {
    /// The delimiter fields are split at.
    pub closed spec fn spec_delimiter(&self) -> char {
        self.delimiter
    }

    /// Whether the first row is a header to drop.
    pub closed spec fn spec_has_headers(&self) -> bool {
        self.has_headers
    }

    /// A reader for comma-separated values with a header row.
    pub fn new() -> (r: CsvParser)
        ensures
            r.spec_delimiter() == ',',
            r.spec_has_headers(),
    {
        CsvParser { delimiter: ',', has_headers: true }
    }

    /// Reads the rows of the input, dropping the header row when one is
    /// expected; this dialect has no malformed inputs.
    #[verifier::loop_isolation(false)]
    pub fn parse(&self, input: &str) -> (r: Result<Vec<Vec<String>>, CsvError>)
        ensures
            r matches Ok(rows) && spec_rows_view(rows@) == spec_csv(
                input@,
                self.spec_delimiter(),
                self.spec_has_headers(),
            ),
    {
        let len: usize = input.unicode_len();
        let mut rows: Vec<Vec<String>> = Vec::new();
        if len == 0 {
            proof {
                assert(spec_rows_view(rows@) =~= spec_csv(
                    input@,
                    self.spec_delimiter(),
                    self.spec_has_headers(),
                ));
            }
            return Ok(rows);
        }
        let body: &str = if input.get_char(len - 1) == '\n' {
            input.substring_char(0, len - 1)
        } else {
            input
        };
        proof {
            if input@.last() == '\n' {
                assert(body@ =~= input@.drop_last());
            }
        }
        let lines = split_on(body, '\n');
        let ghost target = spec_text_lines(input@).map_values(
            |line: Seq<char>| spec_split(line, self.spec_delimiter()),
        );
        let mut i: usize = 0;
        while i < lines.len()
            invariant
                i <= lines@.len(),
                rows@.len() == i,
                name_views(lines@) == spec_text_lines(input@),
                spec_rows_view(rows@) =~= target.subrange(0, i as int),
            decreases lines@.len() - i,
        {
            let fields = split_on(lines[i].as_str(), self.delimiter);
            let ghost before = rows@;
            rows.push(fields);
            proof {
                assert(name_views(lines@)[i as int] == lines@[i as int]@);
                assert(target[i as int] == spec_split(lines@[i as int]@, self.spec_delimiter()));
                assert(spec_rows_view(rows@) =~= spec_rows_view(before).push(
                    name_views(fields@),
                ));
                assert(spec_rows_view(rows@) =~= target.subrange(0, i + 1));
            }
            i = i + 1;
        }
        proof {
            assert(target.subrange(0, target.len() as int) =~= target);
        }
        if self.has_headers && rows.len() > 0 {
            let ghost before = rows@;
            rows.remove(0);
            proof {
                assert(before.remove(0) =~= before.drop_first());
                assert(spec_rows_view(rows@) =~= spec_rows_view(before).drop_first());
            }
        }
        Ok(rows)
    }
}

} // verus!
