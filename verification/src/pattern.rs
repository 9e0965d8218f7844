//! Match patterns and the exhaustiveness checker: for an enum-typed
//! scrutinee the declared variants must all be covered (or a wildcard or
//! irrefutable binding arm present); every other scrutinee type needs a
//! wildcard or binding arm, having no enumerable variant set.

use vstd::prelude::*;

use crate::diagnostics::CompileError;
use crate::diagnostics::ErrorKind;
use crate::diagnostics::spec_span_eq;
use crate::diagnostics::Span;
use crate::strutil::spec_chars_le;
use crate::strutil::spec_chars_lt;
use crate::strutil::str_copy;
use crate::strutil::str_eq;
use crate::strutil::str_lt;
use crate::types::EnumDefinition;
use crate::types::Type;
use crate::types::TypeChecker;
use crate::table::spec_assoc;

verus! {

/// One pattern of a match arm.
#[derive(Debug)]
pub enum Pattern {
    EnumVariant(String, Vec<Pattern>),
    Wildcard,
    Literal,
    Binding(String),
}

/// One arm of a match expression.
#[derive(Debug)]
pub struct MatchArm {
    pub pattern: Pattern,
}

/// A match expression as the checker sees it: the scrutinee's type, the arms,
/// and the whole expression's span.
#[derive(Debug)]
pub struct MatchExpr {
    pub scrutinee_type: Type,
    pub arms: Vec<MatchArm>,
    pub span: Span,
}

/// Whether any arm is a wildcard or an irrefutable binding.
pub open spec fn spec_has_wildcard(arms: Seq<MatchArm>) -> bool {
    exists|i: int|
        0 <= i < arms.len() && (arms[i].pattern is Wildcard || arms[i].pattern is Binding)
}

/// Whether some arm's pattern covers the enum variant called `name`.
pub open spec fn spec_covered(arms: Seq<MatchArm>, name: Seq<char>) -> bool {
    exists|i: int|
        #![trigger arms[i]]
        0 <= i < arms.len() && (arms[i].pattern matches Pattern::EnumVariant(n, _) && n@ == name)
}

impl MatchExpr {
    /// Whether any arm is a wildcard or an irrefutable binding.
    pub fn has_wildcard_pattern(&self) -> (r: bool)
        ensures
            r == spec_has_wildcard(self.arms@),
    {
        let mut i: usize = 0;
        while i < self.arms.len()
            invariant
                i <= self.arms@.len(),
                forall|j: int|
                    0 <= j < i ==> !(self.arms@[j].pattern is Wildcard || self.arms@[j].pattern
                        is Binding),
            decreases self.arms@.len() - i,
        {
            match &self.arms[i].pattern {
                Pattern::Wildcard => {
                    return true;
                },
                Pattern::Binding(_) => {
                    return true;
                },
                _ => {},
            }
            i = i + 1;
        }
        false
    }
}

/// The declared variant names that no arm covers, first occurrences in
/// declaration order.
pub open spec fn spec_missing_pool(variants: Seq<String>, arms: Seq<MatchArm>) -> Seq<Seq<char>>
    decreases variants.len(),
{
    if variants.len() == 0 {
        Seq::empty()
    } else {
        let rest = spec_missing_pool(variants.drop_last(), arms);
        let v = variants.last()@;
        if !spec_covered(arms, v) && !rest.contains(v) {
            rest.push(v)
        } else {
            rest
        }
    }
}

/// Inserts a name into an already sorted sequence, before the first strictly
/// larger element.
pub open spec fn spec_insert_sorted(s: Seq<Seq<char>>, x: Seq<char>) -> Seq<Seq<char>>
    decreases s.len(),
{
    if s.len() == 0 {
        seq![x]
    } else if spec_chars_lt(x, s[0]) {
        seq![x] + s
    } else {
        seq![s[0]] + spec_insert_sorted(s.drop_first(), x)
    }
}

/// Sorts a sequence of names lexicographically by insertion.
pub open spec fn spec_sort_names(names: Seq<Seq<char>>) -> Seq<Seq<char>>
    decreases names.len(),
{
    if names.len() == 0 {
        Seq::empty()
    } else {
        spec_insert_sorted(spec_sort_names(names.drop_last()), names.last())
    }
}

/// The rendered list of missing variant names, each in quotes.
pub open spec fn spec_render_names(names: Seq<Seq<char>>) -> Seq<char>
    decreases names.len(),
{
    if names.len() == 0 {
        "["@ + "]"@
    } else {
        spec_render_names_open(names.drop_last()) + "\""@ + names.last() + "\"]"@
    }
}

/// The rendered list up to and including the separator before one more name.
pub open spec fn spec_render_names_open(names: Seq<Seq<char>>) -> Seq<char>
    decreases names.len(),
{
    if names.len() == 0 {
        "["@
    } else {
        spec_render_names_open(names.drop_last()) + "\""@ + names.last() + "\", "@
    }
}

/// The message of an exhaustiveness diagnostic for the given sorted missing
/// variant names.
pub open spec fn spec_missing_message(names: Seq<Seq<char>>) -> Seq<char> {
    "Match is not exhaustive, missing variants: "@ + spec_render_names(names)
}

/// The sorted missing variants of a match on the enum `def`.
pub open spec fn spec_missing_of(def: EnumDefinition, arms: Seq<MatchArm>) -> Seq<Seq<char>> {
    spec_sort_names(spec_missing_pool(def.variants@, arms))
}

/// Validates match-expression coverage against the enum declarations of a
/// type registry.
#[derive(Debug)]
pub struct ExhaustivenessChecker {
    type_registry: TypeChecker,
}

impl ExhaustivenessChecker {
    /// The registry whose enum declarations the checker consults.
    pub closed spec fn registry(&self) -> TypeChecker {
        self.type_registry
    }

    /// A checker over the given registry.
    pub fn new(type_registry: TypeChecker) -> (r: ExhaustivenessChecker)
        ensures
            r.registry() == type_registry,
    {
        ExhaustivenessChecker { type_registry }
    }

    /// Hands the registry back to the caller.
    pub fn into_registry(self) -> (r: TypeChecker)
        ensures
            r == self.registry(),
    {
        self.type_registry
    }

    /// Checks one match expression. For an enum scrutinee: a `Reference`
    /// error when the enum is unregistered; otherwise a single `Type`
    /// diagnostic naming the missing variants in sorted order, unless a
    /// wildcard or binding arm makes the match irrefutable. Any other
    /// scrutinee type requires a wildcard or binding arm.
    pub fn check(&self, match_expr: &MatchExpr) -> (r: Vec<CompileError>)
        ensures
            match match_expr.scrutinee_type {
                Type::Enum(name) => match spec_assoc(self.registry().enums(), name@) {
                    None => r@.len() == 1 && r@[0].kind == ErrorKind::Reference && r@[0].message@
                        == "match on an unregistered enum type"@ && (r@[0].span matches Some(s)
                        && spec_span_eq(s, match_expr.span)),
                    Some(def) => {
                        if spec_missing_of(def, match_expr.arms@).len() > 0 && !spec_has_wildcard(
                            match_expr.arms@,
                        ) {
                            &&& r@.len() == 1
                            &&& r@[0].kind == ErrorKind::Type
                            &&& (r@[0].span matches Some(s) && spec_span_eq(s, match_expr.span))
                            &&& r@[0].message@ == spec_missing_message(
                                spec_missing_of(def, match_expr.arms@),
                            )
                        } else {
                            r@.len() == 0
                        }
                    },
                },
                _ => {
                    if spec_has_wildcard(match_expr.arms@) {
                        r@.len() == 0
                    } else {
                        r@.len() == 1 && r@[0].kind == ErrorKind::Type && r@[0].message@
                            == "match on a non-enumerable type requires a wildcard or binding arm"@
                            && (r@[0].span matches Some(s) && spec_span_eq(s, match_expr.span))
                    }
                },
            },
            forall|i: int|
                0 <= i < r@.len() ==> (#[trigger] r@[i].notes)@.len() == 0 && r@[i].help is None,
    {
        let mut errors: Vec<CompileError> = Vec::new();
        match &match_expr.scrutinee_type {
            Type::Enum(enum_name) => {
                match self.type_registry.get_enum(enum_name.as_str()) {
                    Some(enum_def) => {
                        let missing = missing_variants(&enum_def.variants, &match_expr.arms);
                        if missing.len() > 0 && !match_expr.has_wildcard_pattern() {
                            let mut message = str_copy(
                                "Match is not exhaustive, missing variants: ",
                            );
                            message.append(render_names(&missing).as_str());
                            let error = CompileError::new(
                                ErrorKind::Type,
                                message.as_str(),
                            ).with_span(match_expr.span.duplicate());
                            errors.push(error);
                        }
                    },
                    None => {
                        let error = CompileError::new(
                            ErrorKind::Reference,
                            "match on an unregistered enum type",
                        ).with_span(match_expr.span.duplicate());
                        errors.push(error);
                    },
                }
            },
            _ => {
                if !match_expr.has_wildcard_pattern() {
                    let error = CompileError::new(
                        ErrorKind::Type,
                        "match on a non-enumerable type requires a wildcard or binding arm",
                    ).with_span(match_expr.span.duplicate());
                    errors.push(error);
                }
            },
        }
        errors
    }
}

/// Whether some arm covers the variant called `name`.
fn covered(arms: &Vec<MatchArm>, name: &str) -> (r: bool)
    ensures
        r == spec_covered(arms@, name@),
{
    let mut i: usize = 0;
    while i < arms.len()
        invariant
            i <= arms@.len(),
            forall|j: int|
                #![trigger arms@[j]]
                0 <= j < i ==> !(arms@[j].pattern matches Pattern::EnumVariant(n, _) && n@
                    == name@),
        decreases arms@.len() - i,
    {
        match &arms[i].pattern {
            Pattern::EnumVariant(n, _) => {
                if str_eq(n.as_str(), name) {
                    return true;
                }
            },
            _ => {},
        }
        i = i + 1;
    }
    false
}

/// Whether the list already holds this name.
fn names_contain(names: &Vec<String>, name: &str) -> (r: bool)
    ensures
        r == crate::types::name_views(names@).contains(name@),
{
    let mut i: usize = 0;
    while i < names.len()
        invariant
            i <= names@.len(),
            forall|j: int| 0 <= j < i ==> names@[j]@ != name@,
        decreases names@.len() - i,
    {
        if str_eq(names[i].as_str(), name) {
            proof {
                assert(crate::types::name_views(names@)[i as int] == name@);
            }
            return true;
        }
        i = i + 1;
    }
    proof {
        assert forall|k: int|
            0 <= k < crate::types::name_views(names@).len() implies crate::types::name_views(
            names@,
        )[k] != name@ by {}
    }
    false
}

/// Splices one name into a list kept equal to its spec-level sorted form.
#[verifier::loop_isolation(false)]
fn insert_sorted(names: &mut Vec<String>, name: String)
    ensures
        crate::types::name_views(final(names)@) == spec_insert_sorted(
            crate::types::name_views(old(names)@),
            name@,
        ),
{
    let mut pos: usize = 0;
    while pos < names.len()
        invariant
            pos <= names@.len(),
            names@ == old(names)@,
            forall|j: int| 0 <= j < pos ==> !spec_chars_lt(name@, names@[j]@),
        decreases names@.len() - pos,
    {
        if str_lt(name.as_str(), names[pos].as_str()) {
            break ;
        }
        pos = pos + 1;
    }
    proof {
        lemma_insert_sorted_at(crate::types::name_views(names@), name@, pos as int);
    }
    let ghost before = names@;
    names.insert(pos, name);
    proof {
        assert(crate::types::name_views(names@) =~= crate::types::name_views(
            before.subrange(0, pos as int),
        ) + seq![name@] + crate::types::name_views(
            before.subrange(pos as int, before.len() as int),
        ));
        assert(crate::types::name_views(before.subrange(0, pos as int)) =~= crate::types::name_views(
            before,
        ).subrange(0, pos as int));
        assert(crate::types::name_views(before.subrange(pos as int, before.len() as int))
            =~= crate::types::name_views(before).subrange(pos as int, before.len() as int));
    }
}

/// Where the scan stopped is where the spec-level insertion puts the name.
proof fn lemma_insert_sorted_at(s: Seq<Seq<char>>, x: Seq<char>, pos: int)
    requires
        0 <= pos <= s.len(),
        forall|j: int| 0 <= j < pos ==> !spec_chars_lt(x, s[j]),
        pos < s.len() ==> spec_chars_lt(x, s[pos]),
    ensures
        spec_insert_sorted(s, x) == s.subrange(0, pos) + seq![x] + s.subrange(pos, s.len() as int),
    decreases s.len(),
{
    if s.len() == 0 {
        assert(spec_insert_sorted(s, x) =~= s.subrange(0, 0) + seq![x] + s.subrange(0, 0));
    } else if pos == 0 {
        assert(spec_chars_lt(x, s[0]));
        assert(spec_insert_sorted(s, x) =~= s.subrange(0, 0) + seq![x] + s.subrange(
            0,
            s.len() as int,
        ));
    } else {
        lemma_insert_sorted_at(s.drop_first(), x, pos - 1);
        assert(spec_insert_sorted(s, x) == seq![s[0]] + spec_insert_sorted(s.drop_first(), x));
        assert(s.drop_first().subrange(0, pos - 1) =~= s.subrange(1, pos));
        assert(s.drop_first().subrange(pos - 1, s.drop_first().len() as int) =~= s.subrange(
            pos,
            s.len() as int,
        ));
        assert(seq![s[0]] + (s.subrange(1, pos) + seq![x] + s.subrange(pos, s.len() as int))
            =~= s.subrange(0, pos) + seq![x] + s.subrange(pos, s.len() as int));
    }
}

/// The declared variants that no arm covers, sorted lexicographically,
/// without duplicates.
#[verifier::loop_isolation(false)]
pub fn missing_variants(variants: &Vec<String>, arms: &Vec<MatchArm>) -> (r: Vec<String>)
    ensures
        crate::types::name_views(r@) == spec_sort_names(spec_missing_pool(variants@, arms@)),
{
    let mut pool: Vec<String> = Vec::new();
    let mut i: usize = 0;
    while i < variants.len()
        invariant
            i <= variants@.len(),
            crate::types::name_views(pool@) == spec_missing_pool(
                variants@.subrange(0, i as int),
                arms@,
            ),
        decreases variants@.len() - i,
    {
        let ghost prefix = variants@.subrange(0, i as int);
        let v = &variants[i];
        if !covered(arms, v.as_str()) && !names_contain(&pool, v.as_str()) {
            pool.push(str_copy(v.as_str()));
            proof {
                assert(crate::types::name_views(pool@) =~= spec_missing_pool(prefix, arms@).push(
                    v@,
                ));
            }
        }
        proof {
            let next = variants@.subrange(0, i + 1);
            assert(next.drop_last() =~= prefix);
            assert(next.last() == variants@[i as int]);
        }
        i = i + 1;
    }
    proof {
        assert(variants@.subrange(0, variants@.len() as int) =~= variants@);
    }
    let mut sorted: Vec<String> = Vec::new();
    let mut k: usize = 0;
    while k < pool.len()
        invariant
            k <= pool@.len(),
            crate::types::name_views(sorted@) == spec_sort_names(
                crate::types::name_views(pool@).subrange(0, k as int),
            ),
        decreases pool@.len() - k,
    {
        let ghost prefix = crate::types::name_views(pool@).subrange(0, k as int);
        insert_sorted(&mut sorted, str_copy(pool[k].as_str()));
        proof {
            let next = crate::types::name_views(pool@).subrange(0, k + 1);
            assert(next.drop_last() =~= prefix);
            assert(next.last() == pool@[k as int]@);
        }
        k = k + 1;
    }
    proof {
        assert(crate::types::name_views(pool@).subrange(0, pool@.len() as int)
            =~= crate::types::name_views(pool@));
    }
    sorted
}

/// Renders the names as a bracketed, comma-separated list of quoted strings.
#[verifier::loop_isolation(false)]
fn render_names(names: &Vec<String>) -> (r: String)
    ensures
        r@ == spec_render_names(crate::types::name_views(names@)),
{
    let mut out = str_copy("[");
    if names.len() == 0 {
        out.append("]");
        proof {
            assert(out@ =~= spec_render_names(crate::types::name_views(names@)));
        }
        return out;
    }
    let mut i: usize = 0;
    let last: usize = names.len() - 1;
    while i < last
        invariant
            i <= last,
            out@ == spec_render_names_open(crate::types::name_views(names@).subrange(0, i as int)),
        decreases last - i,
    {
        let ghost prefix = crate::types::name_views(names@).subrange(0, i as int);
        out.append("\"");
        out.append(names[i].as_str());
        out.append("\", ");
        proof {
            let next = crate::types::name_views(names@).subrange(0, i + 1);
            assert(next.drop_last() =~= prefix);
            assert(next.last() == names@[i as int]@);
            assert(out@ =~= spec_render_names_open(next));
        }
        i = i + 1;
    }
    out.append("\"");
    out.append(names[last].as_str());
    out.append("\"]");
    proof {
        let all = crate::types::name_views(names@);
        assert(all.drop_last() =~= all.subrange(0, last as int));
        assert(all.last() == names@[last as int]@);
        assert(out@ =~= spec_render_names(all));
    }
    out
}

/// A configurable front for match checking: when exhaustiveness checking is
/// off it reports nothing; enum scrutinees are left to the registry-backed
/// `ExhaustivenessChecker`, and every other scrutinee needs a wildcard or
/// binding arm.
#[derive(Debug)]
pub struct PatternMatcher {
    exhaustiveness_check: bool,
}

impl PatternMatcher {
    /// Whether this matcher checks exhaustiveness at all.
    pub closed spec fn spec_checks(&self) -> bool {
        self.exhaustiveness_check
    }

    /// A matcher that checks exhaustiveness iff the flag is set.
    pub fn new(exhaustiveness_check: bool) -> (r: PatternMatcher)
        ensures
            r.spec_checks() == exhaustiveness_check,
    {
        PatternMatcher { exhaustiveness_check }
    }

    /// Reports a single `Type` diagnostic when checking is on and the match
    /// is not exhaustive by the registry-free rule.
    pub fn check_match(&self, match_expr: &MatchExpr) -> (r: Vec<CompileError>)
        ensures
            if self.spec_checks() && !(match_expr.scrutinee_type is Enum || spec_has_wildcard(
                match_expr.arms@,
            )) {
                r@.len() == 1 && r@[0].kind == ErrorKind::Type && r@[0].message@
                    == "Match expression is not exhaustive"@ && r@[0].notes@.len() == 0 && r@[0].help
                    is None && (r@[0].span matches Some(s) && spec_span_eq(s, match_expr.span))
            } else {
                r@.len() == 0
            },
    {
        let mut errors: Vec<CompileError> = Vec::new();
        if self.exhaustiveness_check {
            if !self.is_exhaustive(&match_expr.arms, &match_expr.scrutinee_type) {
                let error = CompileError::new(
                    ErrorKind::Type,
                    "Match expression is not exhaustive",
                ).with_span(match_expr.span.duplicate());
                errors.push(error);
            }
        }
        errors
    }

    /// The registry-free rule: an enum scrutinee is deferred, anything else
    /// needs a wildcard or binding arm.
    fn is_exhaustive(&self, arms: &Vec<MatchArm>, expr_type: &Type) -> (r: bool)
        ensures
            r == (expr_type is Enum || spec_has_wildcard(arms@)),
    {
        match expr_type {
            Type::Enum(_) => true,
            _ => {
                let mut i: usize = 0;
                while i < arms.len()
                    invariant
                        i <= arms@.len(),
                        forall|j: int|
                            0 <= j < i ==> !(arms@[j].pattern is Wildcard || arms@[j].pattern
                                is Binding),
                    decreases arms@.len() - i,
                {
                    match &arms[i].pattern {
                        Pattern::Wildcard => {
                            return true;
                        },
                        Pattern::Binding(_) => {
                            return true;
                        },
                        _ => {},
                    }
                    i = i + 1;
                }
                false
            },
        }
    }
}


/// Whether the names come in lexicographic order.
pub open spec fn spec_names_sorted(s: Seq<Seq<char>>) -> bool {
    forall|i: int, j: int| 0 <= i < j < s.len() ==> spec_chars_le(s[i], s[j])
}

/// Insertion keeps exactly the old names plus the new one.
proof fn lemma_insert_sorted_elems(s: Seq<Seq<char>>, x: Seq<char>, y: Seq<char>)
    ensures
        spec_insert_sorted(s, x).len() == s.len() + 1,
        spec_insert_sorted(s, x).contains(y) <==> (y == x || s.contains(y)),
    decreases s.len(),
{
    let inserted = spec_insert_sorted(s, x);
    if s.len() == 0 {
        assert(inserted =~= seq![x]);
        assert(inserted.contains(y) <==> y == x) by {
            if y == x {
                assert(inserted[0] == y);
            }
        }
        assert(!s.contains(y)) by {
            if s.contains(y) {
                let k = choose|k: int| 0 <= k < s.len() && s[k] == y;
            }
        }
    } else if spec_chars_lt(x, s[0]) {
        assert(inserted =~= seq![x] + s);
        assert(inserted.contains(y) <==> (y == x || s.contains(y))) by {
            if inserted.contains(y) {
                let k = choose|k: int| 0 <= k < inserted.len() && inserted[k] == y;
                if k > 0 {
                    assert(s[k - 1] == y);
                }
            }
            if y == x {
                assert(inserted[0] == y);
            }
            if s.contains(y) {
                let k = choose|k: int| 0 <= k < s.len() && s[k] == y;
                assert(inserted[k + 1] == y);
            }
        }
    } else {
        lemma_insert_sorted_elems(s.drop_first(), x, y);
        let tail = spec_insert_sorted(s.drop_first(), x);
        assert(inserted =~= seq![s[0]] + tail);
        assert(inserted.contains(y) <==> (y == s[0] || tail.contains(y))) by {
            if inserted.contains(y) {
                let k = choose|k: int| 0 <= k < inserted.len() && inserted[k] == y;
                if k > 0 {
                    assert(tail[k - 1] == y);
                }
            }
            if y == s[0] {
                assert(inserted[0] == y);
            }
            if tail.contains(y) {
                let k = choose|k: int| 0 <= k < tail.len() && tail[k] == y;
                assert(inserted[k + 1] == y);
            }
        }
        assert(s.contains(y) <==> (y == s[0] || s.drop_first().contains(y))) by {
            if s.contains(y) {
                let k = choose|k: int| 0 <= k < s.len() && s[k] == y;
                if k > 0 {
                    assert(s.drop_first()[k - 1] == y);
                }
            }
            if y == s[0] {
                assert(s[0] == y);
            }
            if s.drop_first().contains(y) {
                let k = choose|k: int| 0 <= k < s.drop_first().len() && s.drop_first()[k] == y;
                assert(s[k + 1] == y);
            }
        }
    }
}

/// Insertion into a sorted sequence keeps it sorted.
proof fn lemma_insert_sorted_keeps_order(s: Seq<Seq<char>>, x: Seq<char>)
    requires
        spec_names_sorted(s),
    ensures
        spec_names_sorted(spec_insert_sorted(s, x)),
    decreases s.len(),
{
    let inserted = spec_insert_sorted(s, x);
    if s.len() == 0 {
        assert(inserted =~= seq![x]);
    } else if spec_chars_lt(x, s[0]) {
        assert(inserted =~= seq![x] + s);
        assert forall|i: int, j: int| 0 <= i < j < inserted.len() implies spec_chars_le(
            inserted[i],
            inserted[j],
        ) by {
            if i == 0 {
                assert(inserted[j] == s[j - 1]);
                if j == 1 {
                } else {
                    assert(spec_chars_le(s[0], s[j - 1]));
                    if s[0] == s[j - 1] {
                    } else {
                        crate::strutil::lemma_chars_lt_transitive(x, s[0], s[j - 1]);
                    }
                }
            } else {
                assert(inserted[i] == s[i - 1]);
                assert(inserted[j] == s[j - 1]);
            }
        }
    } else {
        assert forall|i: int, j: int|
            0 <= i < j < s.drop_first().len() implies spec_chars_le(
            s.drop_first()[i],
            s.drop_first()[j],
        ) by {
            assert(s.drop_first()[i] == s[i + 1]);
            assert(s.drop_first()[j] == s[j + 1]);
        }
        lemma_insert_sorted_keeps_order(s.drop_first(), x);
        let tail = spec_insert_sorted(s.drop_first(), x);
        assert(inserted =~= seq![s[0]] + tail);
        crate::strutil::lemma_chars_lt_total(x, s[0]);
        assert(spec_chars_le(s[0], x));
        assert forall|i: int, j: int| 0 <= i < j < inserted.len() implies spec_chars_le(
            inserted[i],
            inserted[j],
        ) by {
            if i == 0 {
                assert(inserted[j] == tail[j - 1]);
                lemma_insert_sorted_elems(s.drop_first(), x, tail[j - 1]);
                assert(tail.contains(tail[j - 1])) by {
                    assert(tail[j - 1] == tail[j - 1]);
                }
                if tail[j - 1] == x {
                } else {
                    assert(s.drop_first().contains(tail[j - 1]));
                    let k = choose|k: int|
                        0 <= k < s.drop_first().len() && s.drop_first()[k] == tail[j - 1];
                    assert(s[k + 1] == tail[j - 1]);
                    assert(spec_chars_le(s[0], s[k + 1]));
                }
            } else {
                assert(inserted[i] == tail[i - 1]);
                assert(inserted[j] == tail[j - 1]);
            }
        }
    }
}

/// Sorting yields a sorted sequence with exactly the input's names.
proof fn lemma_sort_names_works(names: Seq<Seq<char>>, y: Seq<char>)
    ensures
        spec_names_sorted(spec_sort_names(names)),
        spec_sort_names(names).contains(y) <==> names.contains(y),
    decreases names.len(),
{
    if names.len() == 0 {
        assert(!names.contains(y)) by {
            if names.contains(y) {
                let k = choose|k: int| 0 <= k < names.len() && names[k] == y;
            }
        }
        assert(!spec_sort_names(names).contains(y)) by {
            if spec_sort_names(names).contains(y) {
                let k = choose|k: int|
                    0 <= k < spec_sort_names(names).len() && spec_sort_names(names)[k] == y;
            }
        }
    } else {
        lemma_sort_names_works(names.drop_last(), y);
        let rest = spec_sort_names(names.drop_last());
        lemma_insert_sorted_keeps_order(rest, names.last());
        lemma_insert_sorted_elems(rest, names.last(), y);
        assert(names.contains(y) <==> (y == names.last() || names.drop_last().contains(y))) by {
            if names.contains(y) {
                let k = choose|k: int| 0 <= k < names.len() && names[k] == y;
                if k < names.len() - 1 {
                    assert(names.drop_last()[k] == y);
                }
            }
            if y == names.last() {
                assert(names[names.len() - 1] == y);
            }
            if names.drop_last().contains(y) {
                let k = choose|k: int|
                    0 <= k < names.drop_last().len() && names.drop_last()[k] == y;
                assert(names[k] == y);
            }
        }
    }
}

/// The pool holds a name exactly when it is a declared variant that no arm
/// covers.
proof fn lemma_missing_pool_exact(variants: Seq<String>, arms: Seq<MatchArm>, name: Seq<char>)
    ensures
        spec_missing_pool(variants, arms).contains(name) <==> (crate::types::name_views(
            variants,
        ).contains(name) && !spec_covered(arms, name)),
    decreases variants.len(),
{
    let views = crate::types::name_views(variants);
    if variants.len() == 0 {
        assert(!spec_missing_pool(variants, arms).contains(name)) by {
            if spec_missing_pool(variants, arms).contains(name) {
                let k = choose|k: int|
                    0 <= k < spec_missing_pool(variants, arms).len() && spec_missing_pool(
                        variants,
                        arms,
                    )[k] == name;
            }
        }
        assert(!views.contains(name)) by {
            if views.contains(name) {
                let k = choose|k: int| 0 <= k < views.len() && views[k] == name;
            }
        }
    } else {
        lemma_missing_pool_exact(variants.drop_last(), arms, name);
        let rest = spec_missing_pool(variants.drop_last(), arms);
        let v = variants.last()@;
        let pool = spec_missing_pool(variants, arms);
        assert(views.contains(name) <==> (name == v || crate::types::name_views(
            variants.drop_last(),
        ).contains(name))) by {
            let prior = crate::types::name_views(variants.drop_last());
            if views.contains(name) {
                let k = choose|k: int| 0 <= k < views.len() && views[k] == name;
                if k < views.len() - 1 {
                    assert(prior[k] == name);
                } else {
                    assert(views[k] == v);
                }
            }
            if name == v {
                assert(views[views.len() - 1] == name);
            }
            if prior.contains(name) {
                let k = choose|k: int| 0 <= k < prior.len() && prior[k] == name;
                assert(views[k] == name);
            }
        }
        if !spec_covered(arms, v) && !rest.contains(v) {
            assert(pool == rest.push(v));
            assert(pool.contains(name) <==> (name == v || rest.contains(name))) by {
                if pool.contains(name) {
                    let k = choose|k: int| 0 <= k < pool.len() && pool[k] == name;
                    if k < pool.len() - 1 {
                        assert(rest[k] == name);
                    }
                }
                if name == v {
                    assert(pool[pool.len() - 1] == name);
                }
                if rest.contains(name) {
                    let k = choose|k: int| 0 <= k < rest.len() && rest[k] == name;
                    assert(pool[k] == name);
                }
            }
        }
    }
}

/// The exhaustiveness report names exactly the declared variants that no
/// arm covers, in lexicographic order.
pub proof fn lemma_missing_of_exact(def: EnumDefinition, arms: Seq<MatchArm>, name: Seq<char>)
    ensures
        spec_names_sorted(spec_missing_of(def, arms)),
        spec_missing_of(def, arms).contains(name) <==> (crate::types::name_views(
            def.variants@,
        ).contains(name) && !spec_covered(arms, name)),
{
    lemma_sort_names_works(spec_missing_pool(def.variants@, arms), name);
    lemma_missing_pool_exact(def.variants@, arms, name);
}

} // verus!
