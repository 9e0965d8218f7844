//! Small verified string helpers shared by the whole crate: character-level
//! equality and ordering of `&str`, pushing single characters, and rendering
//! unsigned numbers in decimal.

use vstd::prelude::*;
use vstd::string::StrSliceExecFns;
use vstd::string::StringExecFns;

verus! {

/// Character-by-character equality of two string slices.
pub fn str_eq(a: &str, b: &str) -> (r: bool)
    ensures
        r == (a@ == b@),
{
    let a_len: usize = a.unicode_len();
    let b_len: usize = b.unicode_len();
    if a_len != b_len {
        assert(a@ != b@) by {
            assert(a@.len() != b@.len());
        }
        return false;
    }
    let mut i: usize = 0;
    while i < a_len
        invariant
            i <= a_len,
            a_len == a@.len(),
            b_len == b@.len(),
            a_len == b_len,
            forall|j: int| 0 <= j < i ==> a@[j] == b@[j],
        decreases a_len - i,
    {
        if a.get_char(i) != b.get_char(i) {
            return false;
        }
        i = i + 1;
    }
    assert(a@ =~= b@);
    true
}

/// The same value as a fresh `String`.
pub fn str_copy(s: &str) -> (r: String)
    ensures
        r@ == s@,
{
    String::from_str(s)
}

/// Relies on std's `String::push`, which vstd leaves unspecified: appends one
/// character at the end.
#[verifier::external_body]
pub fn push_char(s: &mut String, c: char)
    ensures
        final(s)@ == old(s)@.push(c),
{
    s.push(c);
}

/// The decimal digits of `n`, most significant first.
pub open spec fn spec_decimal(n: nat) -> Seq<char>
    decreases n,
{
    if n < 10 {
        seq![spec_digit(n)]
    } else {
        spec_decimal(n / 10).push(spec_digit(n % 10))
    }
}

/// The character for one decimal digit.
pub open spec fn spec_digit(d: nat) -> char {
    (48 + d) as char
}

/// Renders `n` in decimal.
pub fn usize_to_string(n: usize) -> (r: String)
    ensures
        r@ == spec_decimal(n as nat),
{
    let mut digits: Vec<char> = Vec::new();
    let mut m: usize = n;
    loop
        invariant_except_break
            digits@.len() > 0 ==> spec_decimal(n as nat) =~= spec_decimal(m as nat) + digits@,
            digits@.len() == 0 ==> m == n,
        ensures
            spec_decimal(n as nat) =~= digits@,
        decreases m,
    {
        let d: usize = m % 10;
        let c: char = (48 + d as u8) as char;
        assert(c == spec_digit((m % 10) as nat));
        let ghost old_digits = digits@;
        digits.insert(0, c);
        assert(digits@ =~= seq![c] + old_digits);
        m = m / 10;
        if m == 0 {
            assert(spec_decimal(n as nat) =~= digits@);
            break;
        }
        assert(spec_decimal(n as nat) =~= spec_decimal(m as nat) + digits@);
    }
    let mut r = String::new();
    let mut i: usize = 0;
    while i < digits.len()
        invariant
            i <= digits@.len(),
            r@ =~= digits@.subrange(0, i as int),
        decreases digits@.len() - i,
    {
        push_char(&mut r, digits[i]);
        i = i + 1;
    }
    assert(r@ =~= digits@);
    r
}

/// Lexicographic (by character code) strict order on character sequences.
pub open spec fn spec_chars_lt(a: Seq<char>, b: Seq<char>) -> bool
    decreases a.len(),
{
    if b.len() == 0 {
        false
    } else if a.len() == 0 {
        true
    } else if a[0] != b[0] {
        a[0] < b[0]
    } else {
        spec_chars_lt(a.drop_first(), b.drop_first())
    }
}

/// `a` comes no later than `b` in lexicographic order.
pub open spec fn spec_chars_le(a: Seq<char>, b: Seq<char>) -> bool {
    a == b || spec_chars_lt(a, b)
}

/// The order is total: of two distinct sequences one is strictly smaller.
pub proof fn lemma_chars_lt_total(a: Seq<char>, b: Seq<char>)
    ensures
        spec_chars_lt(a, b) || spec_chars_lt(b, a) || a == b,
    decreases a.len(),
{
    if b.len() == 0 {
        if a.len() == 0 {
            assert(a =~= b);
        }
    } else if a.len() == 0 {
    } else if a[0] != b[0] {
    } else {
        lemma_chars_lt_total(a.drop_first(), b.drop_first());
        if a.drop_first() == b.drop_first() {
            assert(a.drop_first().len() == a.len() - 1);
            assert(b.drop_first().len() == b.len() - 1);
            assert(a.len() == b.len());
            assert forall|k: int| 0 <= k < a.len() implies a[k] == b[k] by {
                if k > 0 {
                    assert(a[k] == a.drop_first()[k - 1]);
                    assert(b[k] == b.drop_first()[k - 1]);
                }
            }
            assert(a =~= b);
        }
    }
}

/// The order is transitive.
pub proof fn lemma_chars_lt_transitive(a: Seq<char>, b: Seq<char>, c: Seq<char>)
    requires
        spec_chars_lt(a, b),
        spec_chars_lt(b, c),
    ensures
        spec_chars_lt(a, c),
    decreases a.len() + b.len() + c.len(),
{
    if a.len() == 0 {
    } else if a[0] != c[0] {
        if b.len() != 0 {
            if a[0] == b[0] {
                if b[0] != c[0] {
                } else {
                    lemma_chars_lt_transitive(a.drop_first(), b.drop_first(), c.drop_first());
                }
            }
        }
    } else {
        if b.len() != 0 {
            if a[0] == b[0] && b[0] == c[0] {
                lemma_chars_lt_transitive(a.drop_first(), b.drop_first(), c.drop_first());
            }
        }
    }
}

/// Decides `spec_chars_lt` on two string slices.
pub fn str_lt(a: &str, b: &str) -> (r: bool)
    ensures
        r == spec_chars_lt(a@, b@),
{
    let a_len: usize = a.unicode_len();
    let b_len: usize = b.unicode_len();
    let mut i: usize = 0;
    assert(a@.subrange(0, a_len as int) =~= a@);
    assert(b@.subrange(0, b_len as int) =~= b@);
    loop
        invariant
            i <= a_len,
            i <= b_len,
            a_len == a@.len(),
            b_len == b@.len(),
            spec_chars_lt(a@, b@) == spec_chars_lt(
                a@.subrange(i as int, a_len as int),
                b@.subrange(i as int, b_len as int),
            ),
        decreases a_len - i,
    {
        if i >= b_len {
            assert(b@.subrange(i as int, b_len as int).len() == 0);
            return false;
        }
        if i >= a_len {
            assert(a@.subrange(i as int, a_len as int).len() == 0);
            assert(b@.subrange(i as int, b_len as int).len() > 0);
            return true;
        }
        let ca = a.get_char(i);
        let cb = b.get_char(i);
        assert(a@.subrange(i as int, a_len as int)[0] == ca);
        assert(b@.subrange(i as int, b_len as int)[0] == cb);
        if ca != cb {
            return ca < cb;
        }
        assert(a@.subrange(i as int, a_len as int).drop_first() =~= a@.subrange(
            i + 1,
            a_len as int,
        ));
        assert(b@.subrange(i as int, b_len as int).drop_first() =~= b@.subrange(
            i + 1,
            b_len as int,
        ));
        i = i + 1;
    }
}


/// `n` repetitions of one character.
pub open spec fn spec_repeat(c: char, n: nat) -> Seq<char>
    decreases n,
{
    if n == 0 {
        Seq::empty()
    } else {
        spec_repeat(c, (n - 1) as nat).push(c)
    }
}

/// Appends `n` repetitions of `c` to a string.
pub fn push_repeat(out: &mut String, c: char, n: usize)
    ensures
        final(out)@ == old(out)@ + spec_repeat(c, n as nat),
{
    let mut i: usize = 0;
    while i < n
        invariant
            i <= n,
            out@ == old(out)@ + spec_repeat(c, i as nat),
        decreases n - i,
    {
        push_char(out, c);
        proof {
            assert(old(out)@ + spec_repeat(c, (i + 1) as nat) =~= (old(out)@ + spec_repeat(
                c,
                i as nat,
            )).push(c));
        }
        i = i + 1;
    }
}

/// The decimal digits of `n`, left-padded with spaces to at least `width`
/// characters.
pub open spec fn spec_padded_decimal(n: nat, width: nat) -> Seq<char> {
    let digits = spec_decimal(n);
    if digits.len() >= width {
        digits
    } else {
        spec_repeat(' ', (width - digits.len()) as nat) + digits
    }
}

/// Renders `n` in decimal, left-padded with spaces to at least `width`
/// characters.
pub fn usize_to_padded_string(n: usize, width: usize) -> (r: String)
    ensures
        r@ == spec_padded_decimal(n as nat, width as nat),
{
    let digits = usize_to_string(n);
    let digit_count = digits.unicode_len();
    let mut out = String::new();
    if digit_count < width {
        push_repeat(&mut out, ' ', width - digit_count);
    }
    out.append(digits.as_str());
    proof {
        if digit_count >= width {
            assert(out@ =~= digits@);
        }
    }
    out
}

/// The length of the first line of `s`: the characters before the first
/// newline, or all of `s` when it has none.
pub open spec fn spec_first_line_len(s: Seq<char>) -> nat
    decreases s.len(),
{
    if s.len() == 0 {
        0
    } else if s[0] == '\n' {
        0
    } else {
        1 + spec_first_line_len(s.drop_first())
    }
}

/// The first line never reaches past the end of the text.
pub proof fn lemma_first_line_len_le(s: Seq<char>)
    ensures
        spec_first_line_len(s) <= s.len(),
        forall|j: int| 0 <= j < spec_first_line_len(s) ==> s[j] != '\n',
        spec_first_line_len(s) < s.len() ==> s[spec_first_line_len(s) as int] == '\n',
    decreases s.len(),
{
    if s.len() > 0 && s[0] != '\n' {
        lemma_first_line_len_le(s.drop_first());
        assert forall|j: int| 0 <= j < spec_first_line_len(s) implies s[j] != '\n' by {
            if j > 0 {
                assert(s.drop_first()[j - 1] == s[j]);
            }
        }
    }
}

/// A line as `str::lines` reports it: the trailing carriage return goes when
/// the line was ended by a newline.
pub open spec fn spec_strip_cr(line: Seq<char>) -> Seq<char> {
    if line.len() > 0 && line.last() == '\r' {
        line.drop_last()
    } else {
        line
    }
}

/// The line at 0-based index `n` of `s`, split at newlines, as `str::lines`
/// reports it: `None` past the last line; a final line ending is optional.
pub open spec fn spec_nth_line(s: Seq<char>, n: nat) -> Option<Seq<char>>
    decreases s.len(),
{
    if s.len() == 0 {
        None
    } else {
        let l = spec_first_line_len(s);
        if n == 0 {
            if l < s.len() {
                Some(spec_strip_cr(s.subrange(0, l as int)))
            } else {
                Some(s.subrange(0, l as int))
            }
        } else {
            if l < s.len() {
                spec_nth_line(s.subrange(l as int + 1, s.len() as int), (n - 1) as nat)
            } else {
                None
            }
        }
    }
}

/// Extracts the line at 0-based index `n` of `source`, as `str::lines` would.
#[verifier::loop_isolation(false)]
pub fn nth_line(source: &str, n: usize) -> (r: Option<String>)
    ensures
        match r {
            Some(line) => spec_nth_line(source@, n as nat) == Some(line@),
            None => spec_nth_line(source@, n as nat) is None,
        },
{
    let len: usize = source.unicode_len();
    let mut start: usize = 0;
    let mut remaining: usize = n;
    assert(source@.subrange(0, len as int) =~= source@);
    while remaining > 0
        invariant
            start <= len,
            spec_nth_line(source@, n as nat) == spec_nth_line(
                source@.subrange(start as int, len as int),
                remaining as nat,
            ),
        decreases remaining,
    {
        let ghost suffix = source@.subrange(start as int, len as int);
        proof {
            lemma_first_line_len_le(suffix);
        }
        let mut j: usize = start;
        while j < len && source.get_char(j) != '\n'
            invariant
                start <= j <= len,
                forall|k: int| start <= k < j ==> source@[k] != '\n',
            decreases len - j,
        {
            j = j + 1;
        }
        proof {
            let l = spec_first_line_len(suffix);
            assert forall|k: int| 0 <= k < j - start implies suffix[k] != '\n' by {
                assert(suffix[k] == source@[start + k]);
            }
            if j < len {
                assert(suffix[j - start] == source@[j as int]);
                assert(l == j - start) by {
                    if l < j - start {
                        assert(suffix[l as int] != '\n');
                    }
                    if l > j - start {
                        assert(suffix[(j - start) as int] != '\n');
                    }
                }
            } else {
                assert(l == suffix.len()) by {
                    if l < suffix.len() {
                        assert(suffix[l as int] == '\n');
                        assert(suffix[l as int] == source@[start + l]);
                    }
                }
            }
        }
        if j >= len {
            return None;
        }
        proof {
            assert(suffix.subrange(
                spec_first_line_len(suffix) as int + 1,
                suffix.len() as int,
            ) =~= source@.subrange(j + 1, len as int));
        }
        start = j + 1;
        remaining = remaining - 1;
    }
    let ghost suffix = source@.subrange(start as int, len as int);
    proof {
        lemma_first_line_len_le(suffix);
    }
    if start >= len {
        return None;
    }
    let mut collected: Vec<char> = Vec::new();
    let mut j: usize = start;
    while j < len && source.get_char(j) != '\n'
        invariant
            start <= j <= len,
            collected@.len() == j - start,
            forall|k: int| start <= k < j ==> source@[k] != '\n',
            forall|k: int| 0 <= k < collected@.len() ==> collected@[k] == source@[start + k],
        decreases len - j,
    {
        collected.push(source.get_char(j));
        j = j + 1;
    }
    proof {
        let l = spec_first_line_len(suffix);
        assert forall|k: int| 0 <= k < j - start implies suffix[k] != '\n' by {
            assert(suffix[k] == source@[start + k]);
        }
        if j < len {
            assert(suffix[j - start] == source@[j as int]);
            assert(l == j - start) by {
                if l < j - start {
                    assert(suffix[l as int] != '\n');
                }
                if l > j - start {
                    assert(suffix[(j - start) as int] != '\n');
                }
            }
        } else {
            assert(l == suffix.len()) by {
                if l < suffix.len() {
                    assert(suffix[l as int] == '\n');
                    assert(suffix[l as int] == source@[start + l]);
                }
            }
        }
        assert(collected@ =~= suffix.subrange(0, l as int));
    }
    if j < len {
        if collected.len() > 0 && collected[collected.len() - 1] == '\r' {
            collected.pop();
            proof {
                assert(collected@ =~= spec_strip_cr(suffix.subrange(
                    0,
                    spec_first_line_len(suffix) as int,
                )));
            }
        }
    }
    let mut line = String::new();
    let mut k: usize = 0;
    while k < collected.len()
        invariant
            k <= collected@.len(),
            line@ =~= collected@.subrange(0, k as int),
        decreases collected@.len() - k,
    {
        push_char(&mut line, collected[k]);
        k = k + 1;
    }
    proof {
        assert(line@ =~= collected@);
    }
    Some(line)
}


/// Whether `s` begins with `prefix`.
pub open spec fn spec_starts_with(s: Seq<char>, prefix: Seq<char>) -> bool {
    s.len() >= prefix.len() && s.subrange(0, prefix.len() as int) == prefix
}

/// Decides whether `s` begins with `prefix`.
pub fn str_starts_with(s: &str, prefix: &str) -> (r: bool)
    ensures
        r == spec_starts_with(s@, prefix@),
{
    let s_len: usize = s.unicode_len();
    let p_len: usize = prefix.unicode_len();
    if s_len < p_len {
        return false;
    }
    let mut i: usize = 0;
    while i < p_len
        invariant
            i <= p_len,
            p_len <= s_len,
            s_len == s@.len(),
            p_len == prefix@.len(),
            forall|j: int| 0 <= j < i ==> s@[j] == prefix@[j],
        decreases p_len - i,
    {
        if s.get_char(i) != prefix.get_char(i) {
            assert(s@.subrange(0, p_len as int)[i as int] != prefix@[i as int]);
            return false;
        }
        i = i + 1;
    }
    assert(s@.subrange(0, p_len as int) =~= prefix@);
    true
}

/// Whether the character counts as blank when trimming.
pub open spec fn spec_blank(c: char) -> bool {
    c == ' ' || c == '\t' || c == '\r' || c == '\n'
}

/// The count of leading blanks.
pub open spec fn spec_trim_start_len(s: Seq<char>) -> nat
    decreases s.len(),
{
    if s.len() > 0 && spec_blank(s[0]) {
        1 + spec_trim_start_len(s.drop_first())
    } else {
        0
    }
}

/// The count of trailing blanks.
pub open spec fn spec_trim_end_len(s: Seq<char>) -> nat
    decreases s.len(),
{
    if s.len() > 0 && spec_blank(s.last()) {
        1 + spec_trim_end_len(s.drop_last())
    } else {
        0
    }
}

/// The text with leading and trailing blanks removed.
pub open spec fn spec_trim(s: Seq<char>) -> Seq<char> {
    let rest = s.subrange(spec_trim_start_len(s) as int, s.len() as int);
    rest.subrange(0, rest.len() - spec_trim_end_len(rest))
}

/// A scan that stopped at the first non-blank found the leading blank count.
proof fn lemma_blank_prefix(s: Seq<char>, f: int)
    requires
        0 <= f <= s.len(),
        forall|j: int| 0 <= j < f ==> spec_blank(s[j]),
        f < s.len() ==> !spec_blank(s[f]),
    ensures
        spec_trim_start_len(s) == f,
    decreases f,
{
    if f > 0 {
        assert(spec_blank(s[0]));
        assert forall|j: int| 0 <= j < f - 1 implies spec_blank(s.drop_first()[j]) by {
            assert(s.drop_first()[j] == s[j + 1]);
        }
        if f - 1 < s.drop_first().len() {
            assert(s.drop_first()[f - 1] == s[f]);
        }
        lemma_blank_prefix(s.drop_first(), f - 1);
    }
}

/// A scan that stopped at the last non-blank found the trailing blank count.
proof fn lemma_blank_suffix(s: Seq<char>, t: int)
    requires
        0 <= t <= s.len(),
        forall|j: int| t <= j < s.len() ==> spec_blank(s[j]),
        t > 0 ==> !spec_blank(s[t - 1]),
    ensures
        spec_trim_end_len(s) == s.len() - t,
    decreases s.len() - t,
{
    if t < s.len() {
        assert(spec_blank(s.last()));
        assert forall|j: int| t <= j < s.drop_last().len() implies spec_blank(
            s.drop_last()[j],
        ) by {
            assert(s.drop_last()[j] == s[j]);
        }
        if t > 0 {
            assert(s.drop_last()[t - 1] == s[t - 1]);
        }
        lemma_blank_suffix(s.drop_last(), t);
    }
}

/// Whether the character counts as blank when trimming.
fn is_blank(c: char) -> (r: bool)
    ensures
        r == spec_blank(c),
{
    c == ' ' || c == '\t' || c == '\r' || c == '\n'
}

/// The text with leading and trailing blanks removed.
pub fn str_trim(s: &str) -> (r: String)
    ensures
        r@ == spec_trim(s@),
{
    let len: usize = s.unicode_len();
    let mut from: usize = 0;
    while from < len && is_blank(s.get_char(from))
        invariant
            from <= len,
            len == s@.len(),
            forall|j: int| 0 <= j < from ==> spec_blank(s@[j]),
        decreases len - from,
    {
        from = from + 1;
    }
    proof {
        lemma_blank_prefix(s@, from as int);
    }
    let mut to: usize = len;
    while to > from && is_blank(s.get_char(to - 1))
        invariant
            from <= to <= len,
            len == s@.len(),
            forall|j: int| to <= j < len ==> spec_blank(s@[j]),
        decreases to,
    {
        to = to - 1;
    }
    let ghost rest = s@.subrange(from as int, len as int);
    proof {
        assert forall|j: int| to - from <= j < rest.len() implies spec_blank(rest[j]) by {
            assert(rest[j] == s@[from + j]);
        }
        if to > from {
            assert(rest[to - from - 1] == s@[to - 1]);
        }
        lemma_blank_suffix(rest, to - from);
    }
    let mut out = String::new();
    let mut i: usize = from;
    while i < to
        invariant
            from <= i <= to,
            to <= len,
            len == s@.len(),
            out@.len() == i - from,
            forall|j: int| 0 <= j < out@.len() ==> out@[j] == s@[from + j],
        decreases to - i,
    {
        push_char(&mut out, s.get_char(i));
        i = i + 1;
    }
    proof {
        assert(out@ =~= rest.subrange(0, rest.len() - spec_trim_end_len(rest)));
    }
    out
}

/// The leading run of non-blank characters.
pub fn first_word(s: &str) -> (r: String)
    ensures
        forall|j: int| 0 <= j < r@.len() ==> r@[j] == s@[j],
        r@.len() <= s@.len(),
{
    let len: usize = s.unicode_len();
    let mut out = String::new();
    let mut i: usize = 0;
    while i < len
        invariant
            i <= len,
            len == s@.len(),
            out@.len() == i,
            forall|j: int| 0 <= j < i ==> out@[j] == s@[j],
        decreases len - i,
    {
        let c = s.get_char(i);
        if is_blank(c) {
            return out;
        }
        push_char(&mut out, c);
        i = i + 1;
    }
    out
}

/// The characters before the first occurrence of `stop`.
pub fn up_to_char(s: &str, stop: char) -> (r: String)
    ensures
        forall|j: int| 0 <= j < r@.len() ==> r@[j] == s@[j],
        r@.len() <= s@.len(),
{
    let len: usize = s.unicode_len();
    let mut out = String::new();
    let mut i: usize = 0;
    while i < len
        invariant
            i <= len,
            len == s@.len(),
            out@.len() == i,
            forall|j: int| 0 <= j < i ==> out@[j] == s@[j],
        decreases len - i,
    {
        let c = s.get_char(i);
        if c == stop {
            return out;
        }
        push_char(&mut out, c);
        i = i + 1;
    }
    out
}

/// The text after a prefix, assuming the prefix is there.
pub fn str_after(s: &str, prefix_len: usize) -> (r: String)
    ensures
        prefix_len <= s@.len() ==> r@ == s@.subrange(prefix_len as int, s@.len() as int),
        prefix_len > s@.len() ==> r@.len() == 0,
{
    let len: usize = s.unicode_len();
    let mut out = String::new();
    if prefix_len > len {
        return out;
    }
    let mut i: usize = prefix_len;
    while i < len
        invariant
            prefix_len <= i <= len,
            len == s@.len(),
            out@.len() == i - prefix_len,
            forall|j: int| 0 <= j < out@.len() ==> out@[j] == s@[prefix_len + j],
        decreases len - i,
    {
        push_char(&mut out, s.get_char(i));
        i = i + 1;
    }
    proof {
        assert(out@ =~= s@.subrange(prefix_len as int, s@.len() as int));
    }
    out
}

/// The text with every occurrence of `from` replaced by `to`, scanning left
/// to right without revisiting replacements; an empty pattern matches
/// nothing.
pub fn str_replace(s: &str, from: &str, to: &str) -> (r: String) {
    let len: usize = s.unicode_len();
    let from_len: usize = from.unicode_len();
    if from_len == 0 {
        return str_copy(s);
    }
    let mut out = String::new();
    let mut i: usize = 0;
    while i < len
        invariant
            i <= len,
            len == s@.len(),
            from_len == from@.len(),
            from_len > 0,
        decreases len - i,
    {
        if matches_at(s, i, from) {
            out.append(to);
            i = i + from_len;
            if i > len {
                break ;
            }
        } else {
            push_char(&mut out, s.get_char(i));
            i = i + 1;
        }
    }
    out
}

/// Whether `pat` occurs in `s` starting at `at`.
fn matches_at(s: &str, at: usize, pat: &str) -> (r: bool)
    requires
        at <= s@.len(),
    ensures
        r ==> at + pat@.len() <= s@.len(),
{
    let s_len: usize = s.unicode_len();
    let p_len: usize = pat.unicode_len();
    if at > s_len || s_len - at < p_len {
        return false;
    }
    let mut i: usize = 0;
    while i < p_len
        invariant
            i <= p_len,
            at + p_len <= s_len,
            s_len == s@.len(),
            p_len == pat@.len(),
        decreases p_len - i,
    {
        if s.get_char(at + i) != pat.get_char(i) {
            return false;
        }
        i = i + 1;
    }
    true
}


/// A line exists only at an index below the text's length.
pub proof fn lemma_nth_line_bound(s: Seq<char>, n: nat)
    requires
        spec_nth_line(s, n) is Some,
    ensures
        n < s.len(),
    decreases s.len(),
{
    if n > 0 {
        let l = spec_first_line_len(s);
        lemma_first_line_len_le(s);
        lemma_nth_line_bound(s.subrange(l as int + 1, s.len() as int), (n - 1) as nat);
    }
}

} // verus!
