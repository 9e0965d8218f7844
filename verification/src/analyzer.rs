//! The semantic analyzer: one pass over a compilation unit that first
//! collects its declarations into the type registry and then runs the
//! subtyping, ownership and exhaustiveness checkers over its checkable
//! nodes. It never stops at the first problem: every node is visited and
//! every diagnostic is collected, in visiting order.

use vstd::prelude::*;

use crate::diagnostics::CompileError;
use crate::diagnostics::Diagnostics;
use crate::diagnostics::ErrorKind;
use crate::diagnostics::Span;
use crate::ownership::OwnershipTracker;
use crate::ownership::OwnershipState;
use crate::pattern::ExhaustivenessChecker;
use crate::pattern::MatchExpr;
use crate::types::name_views;
use crate::types::spec_ancestors_of;
use crate::types::spec_registered;
use crate::types::ClassEntry;
use crate::types::EnumDefinition;
use crate::types::Type;
use crate::types::TypeChecker;
use crate::table::spec_assoc;

verus! {

/// One declaration collected before any checking starts.
#[derive(Debug)]
pub enum Declaration {
    Class { name: String, parent: Option<String>, span: Span },
    InterfaceImpl { class_name: String, interface_name: String, span: Span },
    Enum { definition: EnumDefinition, span: Span },
}

/// One checkable node of the unit, visited after declaration collection.
#[derive(Debug)]
pub enum CheckNode {
    Assignment { target: Type, value: Type, span: Span },
    Match(MatchExpr),
    Declare { name: String, span: Span },
    Move { from: String, to: String, span: Span },
    Borrow { name: String, span: Span },
    BorrowMut { name: String, span: Span },
    ReleaseBorrow { name: String, span: Span },
}

/// A compilation unit as the parser hands it over: its declarations and the
/// nodes to check, each in source order.
#[derive(Debug)]
pub struct CompilationUnit {
    pub declarations: Vec<Declaration>,
    pub checks: Vec<CheckNode>,
}

/// A class as the analyzer's model sees it: its name and its transitive
/// ancestor names, as character sequences.
pub open spec fn spec_classes_model(classes: Seq<ClassEntry>) -> Seq<(Seq<char>, Seq<Seq<char>>)> {
    classes.map_values(|e: ClassEntry| (e.name@, name_views(e.ancestors@)))
}

/// The implementation pairs as character sequences.
pub open spec fn spec_impls_model(impls: Seq<(String, String)>) -> Seq<(Seq<char>, Seq<char>)> {
    impls.map_values(|p: (String, String)| (p.0@, p.1@))
}

/// The enum declarations as character sequences: name and variant names.
pub open spec fn spec_enums_model(enums: Seq<(String, EnumDefinition)>) -> Seq<
    (Seq<char>, Seq<Seq<char>>),
> {
    enums.map_values(|p: (String, EnumDefinition)| (p.0@, name_views(p.1.variants@)))
}

/// Whether the model registers a class of this name.
pub open spec fn m_registered(classes: Seq<(Seq<char>, Seq<Seq<char>>)>, name: Seq<char>) -> bool {
    exists|i: int| 0 <= i < classes.len() && classes[i].0 == name
}

/// The ancestor names of the first model class of this name; empty when
/// none is registered.
pub open spec fn m_ancestors_of(
    classes: Seq<(Seq<char>, Seq<Seq<char>>)>,
    name: Seq<char>,
) -> Seq<Seq<char>>
    decreases classes.len(),
{
    if classes.len() == 0 {
        Seq::empty()
    } else if classes[0].0 == name {
        classes[0].1
    } else {
        m_ancestors_of(classes.drop_first(), name)
    }
}

/// The variant names of the first model enum of this name.
pub open spec fn m_enum_lookup(
    enums: Seq<(Seq<char>, Seq<Seq<char>>)>,
    name: Seq<char>,
) -> Option<Seq<Seq<char>>>
    decreases enums.len(),
{
    if enums.len() == 0 {
        None
    } else if enums[0].0 == name {
        Some(enums[0].1)
    } else {
        m_enum_lookup(enums.drop_first(), name)
    }
}

/// Registration in the model agrees with registration in the registry.
proof fn lemma_registered_model(classes: Seq<ClassEntry>, name: Seq<char>)
    ensures
        spec_registered(classes, name) <==> m_registered(spec_classes_model(classes), name),
{
    let model = spec_classes_model(classes);
    if spec_registered(classes, name) {
        let i = choose|i: int| 0 <= i < classes.len() && classes[i].name@ == name;
        assert(model[i].0 == name);
    }
    if m_registered(model, name) {
        let i = choose|i: int| 0 <= i < model.len() && model[i].0 == name;
        assert(classes[i].name@ == name);
    }
}

/// Ancestor lookup in the model agrees with the registry's.
proof fn lemma_ancestors_model(classes: Seq<ClassEntry>, name: Seq<char>)
    ensures
        m_ancestors_of(spec_classes_model(classes), name) == spec_ancestors_of(classes, name),
    decreases classes.len(),
{
    let model = spec_classes_model(classes);
    if classes.len() == 0 {
    } else {
        assert(model[0] == (classes[0].name@, name_views(classes[0].ancestors@)));
        if classes[0].name@ != name {
            assert(model.drop_first() =~= spec_classes_model(classes.drop_first()));
            lemma_ancestors_model(classes.drop_first(), name);
        }
    }
}

/// Enum lookup in the model agrees with the registry's.
proof fn lemma_enum_model(enums: Seq<(String, EnumDefinition)>, name: Seq<char>)
    ensures
        m_enum_lookup(spec_enums_model(enums), name) == (match spec_assoc(enums, name) {
            Some(d) => Some(name_views(d.variants@)),
            None => None,
        }),
    decreases enums.len(),
{
    let model = spec_enums_model(enums);
    if enums.len() == 0 {
    } else {
        assert(model[0] == (enums[0].0@, name_views(enums[0].1.variants@)));
        if enums[0].0@ != name {
            assert(model.drop_first() =~= spec_enums_model(enums.drop_first()));
            lemma_enum_model(enums.drop_first(), name);
        }
    }
}

/// The model classes after the first `n` declarations are collected.
pub open spec fn spec_decl_classes(
    init: Seq<(Seq<char>, Seq<Seq<char>>)>,
    decls: Seq<Declaration>,
    n: int,
) -> Seq<(Seq<char>, Seq<Seq<char>>)>
    decreases n,
{
    if n <= 0 {
        init
    } else {
        let prev = spec_decl_classes(init, decls, n - 1);
        match decls[n - 1] {
            Declaration::Class { name, parent, span } => {
                if m_registered(prev, name@) {
                    prev
                } else {
                    match parent {
                        Some(p) => if m_registered(prev, p@) {
                            prev.push((name@, seq![p@] + m_ancestors_of(prev, p@)))
                        } else {
                            prev
                        },
                        None => prev.push((name@, Seq::empty())),
                    }
                }
            },
            _ => prev,
        }
    }
}

/// The model implementation pairs after the first `n` declarations.
pub open spec fn spec_decl_impls(
    init_classes: Seq<(Seq<char>, Seq<Seq<char>>)>,
    init_impls: Seq<(Seq<char>, Seq<char>)>,
    decls: Seq<Declaration>,
    n: int,
) -> Seq<(Seq<char>, Seq<char>)>
    decreases n,
{
    if n <= 0 {
        init_impls
    } else {
        let prev = spec_decl_impls(init_classes, init_impls, decls, n - 1);
        match decls[n - 1] {
            Declaration::InterfaceImpl { class_name, interface_name, span } => {
                if m_registered(spec_decl_classes(init_classes, decls, n - 1), class_name@) {
                    prev.push((interface_name@, class_name@))
                } else {
                    prev
                }
            },
            _ => prev,
        }
    }
}

/// The model enum table after the first `n` declarations.
pub open spec fn spec_decl_enums(
    init: Seq<(Seq<char>, Seq<Seq<char>>)>,
    decls: Seq<Declaration>,
    n: int,
) -> Seq<(Seq<char>, Seq<Seq<char>>)>
    decreases n,
{
    if n <= 0 {
        init
    } else {
        let prev = spec_decl_enums(init, decls, n - 1);
        match decls[n - 1] {
            Declaration::Enum { definition, span } => {
                if m_enum_lookup(prev, definition.name@) is Some {
                    prev
                } else {
                    prev.push((definition.name@, name_views(definition.variants@)))
                }
            },
            _ => prev,
        }
    }
}

/// The diagnostics the first `n` declarations produce, in order: kind,
/// message, and the node's span.
pub open spec fn spec_decl_diags(
    init_classes: Seq<(Seq<char>, Seq<Seq<char>>)>,
    init_enums: Seq<(Seq<char>, Seq<Seq<char>>)>,
    decls: Seq<Declaration>,
    n: int,
) -> Seq<(ErrorKind, Seq<char>, Span)>
    decreases n,
{
    if n <= 0 {
        Seq::empty()
    } else {
        let prev = spec_decl_diags(init_classes, init_enums, decls, n - 1);
        let classes = spec_decl_classes(init_classes, decls, n - 1);
        let enums = spec_decl_enums(init_enums, decls, n - 1);
        match decls[n - 1] {
            Declaration::Class { name, parent, span } => {
                if m_registered(classes, name@) {
                    prev.push((ErrorKind::Name, "class is already registered"@, span))
                } else {
                    match parent {
                        Some(p) => if m_registered(classes, p@) {
                            prev
                        } else {
                            prev.push(
                                (ErrorKind::Reference, "parent class is not registered"@, span),
                            )
                        },
                        None => prev,
                    }
                }
            },
            Declaration::InterfaceImpl { class_name, interface_name, span } => {
                if m_registered(classes, class_name@) {
                    prev
                } else {
                    prev.push(
                        (ErrorKind::Reference, "implementing class is not registered"@, span),
                    )
                }
            },
            Declaration::Enum { definition, span } => {
                if m_enum_lookup(enums, definition.name@) is Some {
                    prev.push((ErrorKind::Name, "enum is already registered"@, span))
                } else {
                    prev
                }
            },
        }
    }
}

/// The ownership state the model records for a binding.
pub open spec fn m_get(
    track: Seq<(Seq<char>, OwnershipState)>,
    key: Seq<char>,
) -> Option<OwnershipState>
    decreases track.len(),
{
    if track.len() == 0 {
        None
    } else if track[0].0 == key {
        Some(track[0].1)
    } else {
        m_get(track.drop_first(), key)
    }
}

/// The model after a binding's state is stored: the first entry of that
/// name is replaced, or a new entry appended.
pub open spec fn m_put(
    track: Seq<(Seq<char>, OwnershipState)>,
    key: Seq<char>,
    state: OwnershipState,
) -> Seq<(Seq<char>, OwnershipState)>
    decreases track.len(),
{
    if track.len() == 0 {
        seq![(key, state)]
    } else if track[0].0 == key {
        seq![(key, state)] + track.drop_first()
    } else {
        seq![track[0]] + m_put(track.drop_first(), key, state)
    }
}

/// Storing a state fixes that binding's lookup and no other's.
proof fn lemma_m_put(
    track: Seq<(Seq<char>, OwnershipState)>,
    key: Seq<char>,
    state: OwnershipState,
    probe: Seq<char>,
)
    ensures
        probe == key ==> m_get(m_put(track, key, state), probe) == Some(state),
        probe != key ==> m_get(m_put(track, key, state), probe) == m_get(track, probe),
    decreases track.len(),
{
    let updated = m_put(track, key, state);
    if track.len() == 0 {
        assert(updated[0] == (key, state));
        assert(updated.drop_first().len() == 0);
        assert(m_get(updated.drop_first(), probe) is None);
    } else if track[0].0 == key {
        assert(updated[0] == (key, state));
        assert(updated.drop_first() =~= track.drop_first());
    } else {
        assert(updated[0] == track[0]);
        assert(updated.drop_first() =~= m_put(track.drop_first(), key, state));
        lemma_m_put(track.drop_first(), key, state, probe);
    }
}

/// The ownership model after the first `n` checkable nodes.
pub open spec fn spec_track_state(checks: Seq<CheckNode>, n: int) -> Seq<
    (Seq<char>, OwnershipState),
>
    decreases n,
{
    if n <= 0 {
        Seq::empty()
    } else {
        let prev = spec_track_state(checks, n - 1);
        match checks[n - 1] {
            CheckNode::Declare { name, span } => {
                if m_get(prev, name@) is Some {
                    prev
                } else {
                    m_put(prev, name@, OwnershipState::Owned)
                }
            },
            CheckNode::Move { from, to, span } => {
                if m_get(prev, from@) == Some(OwnershipState::Owned) {
                    m_put(m_put(prev, from@, OwnershipState::Moved), to@, OwnershipState::Owned)
                } else {
                    prev
                }
            },
            CheckNode::Borrow { name, span } => {
                match m_get(prev, name@) {
                    Some(OwnershipState::Owned) => m_put(
                        prev,
                        name@,
                        OwnershipState::Borrowed(1),
                    ),
                    Some(OwnershipState::Borrowed(count)) => if count == usize::MAX {
                        prev
                    } else {
                        m_put(prev, name@, OwnershipState::Borrowed((count + 1) as usize))
                    },
                    _ => prev,
                }
            },
            CheckNode::BorrowMut { name, span } => {
                if m_get(prev, name@) == Some(OwnershipState::Owned) {
                    m_put(prev, name@, OwnershipState::MutBorrowed)
                } else {
                    prev
                }
            },
            CheckNode::ReleaseBorrow { name, span } => {
                match m_get(prev, name@) {
                    Some(OwnershipState::Borrowed(count)) => if count > 1 {
                        m_put(prev, name@, OwnershipState::Borrowed((count - 1) as usize))
                    } else {
                        m_put(prev, name@, OwnershipState::Owned)
                    },
                    Some(OwnershipState::MutBorrowed) => m_put(
                        prev,
                        name@,
                        OwnershipState::Owned,
                    ),
                    _ => prev,
                }
            },
            _ => prev,
        }
    }
}

/// The diagnostic one match node produces against a collected registry,
/// if any: an unregistered enum is a `Reference` error, uncovered variants
/// without a wildcard a `Type` error, and a non-enumerable scrutinee
/// without a wildcard a `Type` error.
pub open spec fn spec_match_diag(registry: TypeChecker, m: MatchExpr) -> Option<
    (ErrorKind, Seq<char>, Span),
> {
    match m.scrutinee_type {
        Type::Enum(name) => match spec_assoc(registry.enums(), name@) {
            None => Some((ErrorKind::Reference, "match on an unregistered enum type"@, m.span)),
            Some(def) => {
                if crate::pattern::spec_missing_of(def, m.arms@).len() > 0
                    && !crate::pattern::spec_has_wildcard(m.arms@) {
                    Some(
                        (
                            ErrorKind::Type,
                            crate::pattern::spec_missing_message(
                                crate::pattern::spec_missing_of(def, m.arms@),
                            ),
                            m.span,
                        ),
                    )
                } else {
                    None
                }
            },
        },
        _ => {
            if crate::pattern::spec_has_wildcard(m.arms@) {
                None
            } else {
                Some(
                    (
                        ErrorKind::Type,
                        "match on a non-enumerable type requires a wildcard or binding arm"@,
                        m.span,
                    ),
                )
            }
        },
    }
}

/// The diagnostics the first `n` checkable nodes produce against a
/// collected registry, in order: kind, message, and the node's span.
pub open spec fn spec_check_diags(
    registry: TypeChecker,
    checks: Seq<CheckNode>,
    n: int,
) -> Seq<(ErrorKind, Seq<char>, Span)>
    decreases n,
{
    if n <= 0 {
        Seq::empty()
    } else {
        let prev = spec_check_diags(registry, checks, n - 1);
        let track = spec_track_state(checks, n - 1);
        match checks[n - 1] {
            CheckNode::Assignment { target, value, span } => {
                if crate::types::spec_is_subtype(
                    registry.classes(),
                    registry.impls(),
                    value,
                    target,
                ) {
                    prev
                } else {
                    prev.push(
                        (
                            ErrorKind::Type,
                            "Cannot assign value of type "@ + crate::types::spec_type_name(value)
                                + " to variable of type "@ + crate::types::spec_type_name(target),
                            span,
                        ),
                    )
                }
            },
            CheckNode::Match(m) => {
                match spec_match_diag(registry, m) {
                    Some(d) => prev.push(d),
                    None => prev,
                }
            },
            CheckNode::Declare { name, span } => {
                if m_get(track, name@) is Some {
                    prev.push(
                        (
                            ErrorKind::Ownership,
                            "Variable '"@ + name@ + "' is already declared"@,
                            span,
                        ),
                    )
                } else {
                    prev
                }
            },
            CheckNode::Move { from, to, span } => {
                match m_get(track, from@) {
                    Some(OwnershipState::Owned) => prev,
                    Some(OwnershipState::Moved) => prev.push(
                        (
                            ErrorKind::Ownership,
                            "Variable '"@ + from@ + "' used after being moved"@,
                            span,
                        ),
                    ),
                    Some(_) => prev.push(
                        (
                            ErrorKind::Ownership,
                            "Cannot move variable '"@ + from@ + "' while it is borrowed"@,
                            span,
                        ),
                    ),
                    None => prev.push(
                        (
                            ErrorKind::Ownership,
                            "Variable '"@ + from@ + "' is not declared"@,
                            span,
                        ),
                    ),
                }
            },
            CheckNode::Borrow { name, span } => {
                match m_get(track, name@) {
                    Some(OwnershipState::Owned) => prev,
                    Some(OwnershipState::Borrowed(count)) => if count == usize::MAX {
                        prev.push((ErrorKind::Internal, "borrow count limit reached"@, span))
                    } else {
                        prev
                    },
                    Some(OwnershipState::Moved) => prev.push(
                        (
                            ErrorKind::Ownership,
                            "Variable '"@ + name@ + "' used after being moved"@,
                            span,
                        ),
                    ),
                    Some(OwnershipState::MutBorrowed) => prev.push(
                        (
                            ErrorKind::Ownership,
                            "Cannot borrow variable '"@ + name@
                                + "' while it is mutably borrowed"@,
                            span,
                        ),
                    ),
                    None => prev.push(
                        (
                            ErrorKind::Ownership,
                            "Variable '"@ + name@ + "' is not declared"@,
                            span,
                        ),
                    ),
                }
            },
            CheckNode::BorrowMut { name, span } => {
                match m_get(track, name@) {
                    Some(OwnershipState::Owned) => prev,
                    Some(OwnershipState::Borrowed(_)) => prev.push(
                        (
                            ErrorKind::Ownership,
                            "Cannot mutably borrow variable '"@ + name@
                                + "' while it is already borrowed"@,
                            span,
                        ),
                    ),
                    Some(OwnershipState::Moved) => prev.push(
                        (
                            ErrorKind::Ownership,
                            "Variable '"@ + name@ + "' used after being moved"@,
                            span,
                        ),
                    ),
                    Some(OwnershipState::MutBorrowed) => prev.push(
                        (
                            ErrorKind::Ownership,
                            "Cannot mutably borrow variable '"@ + name@
                                + "' while it is already mutably borrowed"@,
                            span,
                        ),
                    ),
                    None => prev.push(
                        (
                            ErrorKind::Ownership,
                            "Variable '"@ + name@ + "' is not declared"@,
                            span,
                        ),
                    ),
                }
            },
            CheckNode::ReleaseBorrow { name, span } => {
                match m_get(track, name@) {
                    Some(OwnershipState::Borrowed(_)) => prev,
                    Some(OwnershipState::MutBorrowed) => prev,
                    Some(OwnershipState::Owned) => prev.push(
                        (
                            ErrorKind::Ownership,
                            "Cannot release borrow on variable '"@ + name@
                                + "' that is not borrowed"@,
                            span,
                        ),
                    ),
                    Some(OwnershipState::Moved) => prev.push(
                        (
                            ErrorKind::Ownership,
                            "Variable '"@ + name@ + "' used after being moved"@,
                            span,
                        ),
                    ),
                    None => prev.push(
                        (
                            ErrorKind::Ownership,
                            "Variable '"@ + name@ + "' is not declared"@,
                            span,
                        ),
                    ),
                }
            },
        }
    }
}

/// Whether a collected diagnostic is the one the model calls for: same
/// kind, same message, the node's span, and no notes or help.
pub open spec fn spec_diag_matches(e: CompileError, d: (ErrorKind, Seq<char>, Span)) -> bool {
    &&& e.kind == d.0
    &&& e.message@ == d.1
    &&& (e.span matches Some(s) && crate::diagnostics::spec_span_eq(s, d.2))
    &&& e.notes@.len() == 0
    &&& e.help is None
}

/// A step that appends matching diagnostics to matching sequences (or leaves
/// both alone) keeps the collected errors pointwise equal to the model.
proof fn lemma_diags_extend(
    errs0: Seq<CompileError>,
    errs1: Seq<CompileError>,
    base: Seq<(ErrorKind, Seq<char>, Span)>,
    cd0: Seq<(ErrorKind, Seq<char>, Span)>,
    cd1: Seq<(ErrorKind, Seq<char>, Span)>,
)
    requires
        errs0.len() == base.len() + cd0.len(),
        forall|j: int| 0 <= j < base.len() ==> spec_diag_matches(#[trigger] errs0[j], base[j]),
        forall|j: int|
            base.len() <= j < errs0.len() ==> spec_diag_matches(
                #[trigger] errs0[j],
                cd0[j - base.len()],
            ),
        (errs1 == errs0 && cd1 == cd0) || (errs1.len() == errs0.len() + 1 && errs1.drop_last()
            == errs0 && cd1.len() == cd0.len() + 1 && cd1.drop_last() == cd0 && spec_diag_matches(
            errs1.last(),
            cd1.last(),
        )),
    ensures
        errs1.len() == base.len() + cd1.len(),
        forall|j: int| 0 <= j < base.len() ==> spec_diag_matches(#[trigger] errs1[j], base[j]),
        forall|j: int|
            base.len() <= j < errs1.len() ==> spec_diag_matches(
                #[trigger] errs1[j],
                cd1[j - base.len()],
            ),
{
    if errs1 == errs0 && cd1 == cd0 {
    } else {
        assert forall|j: int| 0 <= j < base.len() implies spec_diag_matches(
            #[trigger] errs1[j],
            base[j],
        ) by {
            assert(errs1[j] == errs1.drop_last()[j]);
        }
        assert forall|j: int| base.len() <= j < errs1.len() implies spec_diag_matches(
            #[trigger] errs1[j],
            cd1[j - base.len()],
        ) by {
            if j < errs1.len() - 1 {
                assert(errs1[j] == errs1.drop_last()[j]);
                assert(cd1[j - base.len()] == cd1.drop_last()[j - base.len()]);
            } else {
                assert(errs1[j] == errs1.last());
                assert(cd1[j - base.len()] == cd1.last());
            }
        }
    }
}

/// Walks one compilation unit and aggregates every diagnostic.
#[derive(Debug)]
pub struct SemanticAnalyzer {
    registry: TypeChecker,
}

impl SemanticAnalyzer {
    /// The registry as the declaration phase left it.
    pub closed spec fn spec_registry(&self) -> TypeChecker {
        self.registry
    }

    /// An analyzer with an empty registry.
    pub fn new() -> (r: SemanticAnalyzer)
        ensures
            r.spec_registry().wf(),
    {
        SemanticAnalyzer { registry: TypeChecker::new() }
    }

    /// Analyzes one unit: declarations first, then every checkable node,
    /// never stopping early. The contract fixes the outcome exactly: the
    /// registry becomes the fold of the unit's declarations over the
    /// registration operations, and the errors are precisely the
    /// diagnostics those declarations and check nodes produce, in visiting
    /// order; nothing is reported as a warning.
    #[verifier::loop_isolation(false)]
    #[verifier::rlimit(100)]
    pub fn analyze(&mut self, unit: &CompilationUnit) -> (r: Diagnostics)
        requires
            old(self).spec_registry().wf(),
        ensures
            final(self).spec_registry().wf(),
            final(self).spec_registry().vars() == old(self).spec_registry().vars(),
            spec_classes_model(final(self).spec_registry().classes()) == spec_decl_classes(
                spec_classes_model(old(self).spec_registry().classes()),
                unit.declarations@,
                unit.declarations@.len() as int,
            ),
            spec_impls_model(final(self).spec_registry().impls()) == spec_decl_impls(
                spec_classes_model(old(self).spec_registry().classes()),
                spec_impls_model(old(self).spec_registry().impls()),
                unit.declarations@,
                unit.declarations@.len() as int,
            ),
            spec_enums_model(final(self).spec_registry().enums()) == spec_decl_enums(
                spec_enums_model(old(self).spec_registry().enums()),
                unit.declarations@,
                unit.declarations@.len() as int,
            ),
            r.spec_warnings().len() == 0,
            r.spec_errors().len() == spec_decl_diags(
                spec_classes_model(old(self).spec_registry().classes()),
                spec_enums_model(old(self).spec_registry().enums()),
                unit.declarations@,
                unit.declarations@.len() as int,
            ).len() + spec_check_diags(
                final(self).spec_registry(),
                unit.checks@,
                unit.checks@.len() as int,
            ).len(),
            forall|j: int|
                0 <= j < spec_decl_diags(
                    spec_classes_model(old(self).spec_registry().classes()),
                    spec_enums_model(old(self).spec_registry().enums()),
                    unit.declarations@,
                    unit.declarations@.len() as int,
                ).len() ==> spec_diag_matches(
                    #[trigger] r.spec_errors()[j],
                    spec_decl_diags(
                        spec_classes_model(old(self).spec_registry().classes()),
                        spec_enums_model(old(self).spec_registry().enums()),
                        unit.declarations@,
                        unit.declarations@.len() as int,
                    )[j],
                ),
            forall|j: int|
                spec_decl_diags(
                    spec_classes_model(old(self).spec_registry().classes()),
                    spec_enums_model(old(self).spec_registry().enums()),
                    unit.declarations@,
                    unit.declarations@.len() as int,
                ).len() <= j < r.spec_errors().len() ==> spec_diag_matches(
                    #[trigger] r.spec_errors()[j],
                    spec_check_diags(final(self).spec_registry(), unit.checks@, unit.checks@.len() as int)[j
                        - spec_decl_diags(
                        spec_classes_model(old(self).spec_registry().classes()),
                        spec_enums_model(old(self).spec_registry().enums()),
                        unit.declarations@,
                        unit.declarations@.len() as int,
                    ).len()],
                ),
    {
        let ghost init_classes = spec_classes_model(self.registry.classes());
        let ghost init_impls = spec_impls_model(self.registry.impls());
        let ghost init_enums = spec_enums_model(self.registry.enums());
        let ghost init_vars = self.registry.vars();
        let ghost decls = unit.declarations@;
        let ghost checks = unit.checks@;
        let mut diagnostics = Diagnostics::new();
        let mut i: usize = 0;
        while i < unit.declarations.len()
            invariant
                i <= decls.len(),
                self.registry.wf(),
                self.registry.vars() == init_vars,
                spec_classes_model(self.registry.classes()) == spec_decl_classes(
                    init_classes,
                    decls,
                    i as int,
                ),
                spec_impls_model(self.registry.impls()) == spec_decl_impls(
                    init_classes,
                    init_impls,
                    decls,
                    i as int,
                ),
                spec_enums_model(self.registry.enums()) == spec_decl_enums(
                    init_enums,
                    decls,
                    i as int,
                ),
                diagnostics.spec_warnings().len() == 0,
                diagnostics.spec_errors().len() == spec_decl_diags(
                    init_classes,
                    init_enums,
                    decls,
                    i as int,
                ).len(),
                forall|j: int|
                    0 <= j < diagnostics.spec_errors().len() ==> spec_diag_matches(
                        #[trigger] diagnostics.spec_errors()[j],
                        spec_decl_diags(init_classes, init_enums, decls, i as int)[j],
                    ),
            decreases decls.len() - i,
        {
            let ghost n1 = i as int + 1;
            let ghost classes_before = self.registry.classes();
            let ghost impls_before = self.registry.impls();
            let ghost enums_before = self.registry.enums();
            let ghost fold_classes_next = spec_decl_classes(init_classes, decls, n1);
            let ghost fold_impls_next = spec_decl_impls(init_classes, init_impls, decls, n1);
            let ghost fold_enums_next = spec_decl_enums(init_enums, decls, n1);
            let ghost fold_diags_now = spec_decl_diags(init_classes, init_enums, decls, i as int);
            let ghost fold_diags_next = spec_decl_diags(init_classes, init_enums, decls, n1);
            match &unit.declarations[i] {
                Declaration::Class { name, parent, span } => {
                    proof {
                        lemma_registered_model(classes_before, name@);
                        match parent {
                            Some(p) => {
                                lemma_registered_model(classes_before, p@);
                                lemma_ancestors_model(classes_before, p@);
                            },
                            None => {},
                        }
                    }
                    let parent_name: Option<&str> = match parent {
                        Some(p) => Some(p.as_str()),
                        None => None,
                    };
                    match self.registry.add_class(name.as_str(), parent_name) {
                        Ok(()) => {
                            proof {
                                let folded = spec_decl_classes(init_classes, decls, i as int);
                                let updated = self.registry.classes();
                                assert forall|j: int|
                                    0 <= j < folded.len() implies spec_classes_model(updated)[j]
                                    == folded[j] by {
                                    assert(updated.drop_last()[j] == updated[j]);
                                    assert(spec_classes_model(classes_before)[j] == folded[j]);
                                }
                                assert(spec_classes_model(updated) =~= spec_decl_classes(
                                    init_classes,
                                    decls,
                                    n1,
                                ));
                            }
                        },
                        Err(error) => {
                            diagnostics.add_error(error.with_span(span.duplicate()));
                            proof {
                                assert(spec_decl_classes(init_classes, decls, n1)
                                    == spec_decl_classes(init_classes, decls, i as int));
                            }
                        },
                    }
                },
                Declaration::InterfaceImpl { class_name, interface_name, span } => {
                    proof {
                        lemma_registered_model(classes_before, class_name@);
                    }
                    match self.registry.add_interface_implementation(
                        class_name.as_str(),
                        interface_name.as_str(),
                    ) {
                        Ok(()) => {
                            proof {
                                let folded = spec_decl_impls(
                                    init_classes,
                                    init_impls,
                                    decls,
                                    i as int,
                                );
                                let updated = self.registry.impls();
                                assert forall|j: int|
                                    0 <= j < folded.len() implies spec_impls_model(updated)[j]
                                    == folded[j] by {
                                    assert(updated.drop_last()[j] == updated[j]);
                                    assert(spec_impls_model(impls_before)[j] == folded[j]);
                                }
                                assert(spec_impls_model(updated) =~= spec_decl_impls(
                                    init_classes,
                                    init_impls,
                                    decls,
                                    n1,
                                ));
                            }
                        },
                        Err(error) => {
                            diagnostics.add_error(error.with_span(span.duplicate()));
                        },
                    }
                },
                Declaration::Enum { definition, span } => {
                    proof {
                        lemma_enum_model(enums_before, definition.name@);
                    }
                    let copy = EnumDefinition {
                        name: crate::strutil::str_copy(definition.name.as_str()),
                        variants: copy_names(&definition.variants),
                    };
                    match self.registry.add_enum(copy) {
                        Ok(()) => {
                            proof {
                                let folded = spec_decl_enums(init_enums, decls, i as int);
                                let updated = self.registry.enums();
                                assert forall|j: int|
                                    0 <= j < folded.len() implies spec_enums_model(updated)[j]
                                    == folded[j] by {
                                    assert(updated.drop_last()[j] == updated[j]);
                                    assert(spec_enums_model(enums_before)[j] == folded[j]);
                                }
                                assert(spec_enums_model(updated) =~= spec_decl_enums(
                                    init_enums,
                                    decls,
                                    n1,
                                ));
                            }
                        },
                        Err(error) => {
                            diagnostics.add_error(error.with_span(span.duplicate()));
                        },
                    }
                },
            }
            i = i + 1;
        }
        let ghost reg1 = self.registry;
        let ghost decl_diags = spec_decl_diags(init_classes, init_enums, decls, decls.len() as int);
        let mut tracker = OwnershipTracker::new();
        let mut k: usize = 0;
        while k < unit.checks.len()
            invariant
                k <= checks.len(),
                self.registry == reg1,
                self.registry.wf(),
                forall|nm: Seq<char>|
                    #[trigger] tracker.spec_state(nm) == m_get(
                        spec_track_state(checks, k as int),
                        nm,
                    ),
                diagnostics.spec_warnings().len() == 0,
                diagnostics.spec_errors().len() == decl_diags.len() + spec_check_diags(
                    reg1,
                    checks,
                    k as int,
                ).len(),
                forall|j: int|
                    0 <= j < decl_diags.len() ==> spec_diag_matches(
                        #[trigger] diagnostics.spec_errors()[j],
                        decl_diags[j],
                    ),
                forall|j: int|
                    decl_diags.len() <= j < diagnostics.spec_errors().len() ==> spec_diag_matches(
                        #[trigger] diagnostics.spec_errors()[j],
                        spec_check_diags(reg1, checks, k as int)[j - decl_diags.len()],
                    ),
            decreases checks.len() - k,
        {
            let ghost n1 = k as int + 1;
            let ghost track_k = spec_track_state(checks, k as int);
            let ghost cd_now = spec_check_diags(reg1, checks, k as int);
            let ghost cd_next = spec_check_diags(reg1, checks, n1);
            let ghost errs0 = diagnostics.spec_errors();
            match &unit.checks[k] {
                CheckNode::Assignment { target, value, span } => {
                    match self.registry.check_assignment(target, value) {
                        Ok(()) => {
                            proof {
                                assert(cd_next == cd_now);
                            }
                        },
                        Err(error) => {
                            let report = CompileError::new(
                                ErrorKind::Type,
                                error.message().as_str(),
                            ).with_span(span.duplicate());
                            diagnostics.add_error(report);
                            proof {
                                assert(diagnostics.spec_errors().drop_last() =~= errs0);
                                assert(cd_next.len() == cd_now.len() + 1);
                                assert(spec_diag_matches(
                                    diagnostics.spec_errors().last(),
                                    cd_next.last(),
                                ));
                            }
                        },
                    }
                },
                CheckNode::Match(match_expr) => {
                    check_match_node(&mut self.registry, &mut diagnostics, match_expr);
                },
                CheckNode::Declare { name, span } => {
                    proof {
                        assert(tracker.spec_state(name@) == m_get(track_k, name@));
                    }
                    match tracker.declare(name.as_str()) {
                        Ok(()) => {
                            proof {
                                assert forall|nm: Seq<char>|
                                    #[trigger] tracker.spec_state(nm) == m_get(
                                        spec_track_state(checks, n1),
                                        nm,
                                    ) by {
                                    lemma_m_put(track_k, name@, OwnershipState::Owned, nm);
                                }
                            }
                        },
                        Err(error) => {
                            report_ownership(&mut diagnostics, error, span);
                            proof {
                                assert(cd_next.len() == cd_now.len() + 1);
                                assert(spec_diag_matches(
                                    diagnostics.spec_errors().last(),
                                    cd_next.last(),
                                ));
                            }
                        },
                    }
                },
                CheckNode::Move { from, to, span } => {
                    proof {
                        assert(tracker.spec_state(from@) == m_get(track_k, from@));
                    }
                    match tracker.move_ownership(from.as_str(), to.as_str()) {
                        Ok(()) => {
                            proof {
                                let mid = m_put(track_k, from@, OwnershipState::Moved);
                                assert forall|nm: Seq<char>|
                                    #[trigger] tracker.spec_state(nm) == m_get(
                                        spec_track_state(checks, n1),
                                        nm,
                                    ) by {
                                    lemma_m_put(track_k, from@, OwnershipState::Moved, nm);
                                    lemma_m_put(mid, to@, OwnershipState::Owned, nm);
                                }
                            }
                        },
                        Err(error) => {
                            report_ownership(&mut diagnostics, error, span);
                            proof {
                                assert(cd_next.len() == cd_now.len() + 1);
                                assert(spec_diag_matches(
                                    diagnostics.spec_errors().last(),
                                    cd_next.last(),
                                ));
                            }
                        },
                    }
                },
                CheckNode::Borrow { name, span } => {
                    proof {
                        assert(tracker.spec_state(name@) == m_get(track_k, name@));
                    }
                    // the borrow counter is machine-bounded; running into
                    // that bound is a checker limit, not a user mistake
                    let at_limit = match tracker.state_of(name.as_str()) {
                        Some(OwnershipState::Borrowed(count)) => count == usize::MAX,
                        _ => false,
                    };
                    if at_limit {
                        let report = CompileError::new(
                            ErrorKind::Internal,
                            "borrow count limit reached",
                        ).with_span(span.duplicate());
                        diagnostics.add_error(report);
                        proof {
                            assert(diagnostics.spec_errors().drop_last() =~= errs0);
                            assert(cd_next.len() == cd_now.len() + 1);
                            assert(spec_diag_matches(
                                diagnostics.spec_errors().last(),
                                cd_next.last(),
                            ));
                        }
                    } else {
                        match tracker.borrow(name.as_str()) {
                            Ok(()) => {
                                proof {
                                    let stored = match m_get(track_k, name@) {
                                        Some(OwnershipState::Borrowed(count)) =>
                                            OwnershipState::Borrowed((count + 1) as usize),
                                        _ => OwnershipState::Borrowed(1),
                                    };
                                    assert forall|nm: Seq<char>|
                                        #[trigger] tracker.spec_state(nm) == m_get(
                                            spec_track_state(checks, n1),
                                            nm,
                                        ) by {
                                        lemma_m_put(track_k, name@, stored, nm);
                                    }
                                }
                            },
                            Err(error) => {
                                report_ownership(&mut diagnostics, error, span);
                                proof {
                                    assert(cd_next.len() == cd_now.len() + 1);
                                    assert(spec_diag_matches(
                                        diagnostics.spec_errors().last(),
                                        cd_next.last(),
                                    ));
                                }
                            },
                        }
                    }
                },
                CheckNode::BorrowMut { name, span } => {
                    proof {
                        assert(tracker.spec_state(name@) == m_get(track_k, name@));
                    }
                    match tracker.borrow_mut(name.as_str()) {
                        Ok(()) => {
                            proof {
                                assert forall|nm: Seq<char>|
                                    #[trigger] tracker.spec_state(nm) == m_get(
                                        spec_track_state(checks, n1),
                                        nm,
                                    ) by {
                                    lemma_m_put(track_k, name@, OwnershipState::MutBorrowed, nm);
                                }
                            }
                        },
                        Err(error) => {
                            report_ownership(&mut diagnostics, error, span);
                            proof {
                                assert(cd_next.len() == cd_now.len() + 1);
                                assert(spec_diag_matches(
                                    diagnostics.spec_errors().last(),
                                    cd_next.last(),
                                ));
                            }
                        },
                    }
                },
                CheckNode::ReleaseBorrow { name, span } => {
                    proof {
                        assert(tracker.spec_state(name@) == m_get(track_k, name@));
                    }
                    match tracker.release_borrow(name.as_str()) {
                        Ok(()) => {
                            proof {
                                let stored = match m_get(track_k, name@) {
                                    Some(OwnershipState::Borrowed(count)) => if count > 1 {
                                        OwnershipState::Borrowed((count - 1) as usize)
                                    } else {
                                        OwnershipState::Owned
                                    },
                                    _ => OwnershipState::Owned,
                                };
                                assert forall|nm: Seq<char>|
                                    #[trigger] tracker.spec_state(nm) == m_get(
                                        spec_track_state(checks, n1),
                                        nm,
                                    ) by {
                                    lemma_m_put(track_k, name@, stored, nm);
                                }
                            }
                        },
                        Err(error) => {
                            report_ownership(&mut diagnostics, error, span);
                            proof {
                                assert(cd_next.len() == cd_now.len() + 1);
                                assert(spec_diag_matches(
                                    diagnostics.spec_errors().last(),
                                    cd_next.last(),
                                ));
                            }
                        },
                    }
                },
            }
            proof {
                if cd_next.len() == cd_now.len() + 1 {
                    assert(cd_next.drop_last() =~= cd_now);
                }
                lemma_diags_extend(errs0, diagnostics.spec_errors(), decl_diags, cd_now, cd_next);
            }
            k = k + 1;
        }
        diagnostics
    }
}

/// Runs the exhaustiveness checker over one match node, reporting its
/// diagnostic (if it has one) and handing the registry back unchanged.
fn check_match_node(
    registry: &mut TypeChecker,
    diagnostics: &mut Diagnostics,
    match_expr: &MatchExpr,
)
    ensures
        *final(registry) == *old(registry),
        final(diagnostics).spec_warnings() == old(diagnostics).spec_warnings(),
        match spec_match_diag(*old(registry), *match_expr) {
            Some(d) => final(diagnostics).spec_errors().len() == old(
                diagnostics,
            ).spec_errors().len() + 1 && final(diagnostics).spec_errors().drop_last() == old(
                diagnostics,
            ).spec_errors() && spec_diag_matches(final(diagnostics).spec_errors().last(), d),
            None => final(diagnostics).spec_errors() == old(diagnostics).spec_errors(),
        },
{
    let checker = ExhaustivenessChecker::new(take_registry(registry));
    let mut errors = checker.check(match_expr);
    *registry = restore_registry(checker);
    if errors.len() > 0 {
        proof {
            assert(errors@[0].notes@.len() == 0 && errors@[0].help is None);
        }
        let error = errors.remove(0);
        diagnostics.add_error(error);
    }
}

/// Reports one ownership violation at its node's span.
fn report_ownership(diagnostics: &mut Diagnostics, error: crate::ownership::OwnershipError, span: &Span)
    ensures
        final(diagnostics).spec_errors().len() == old(diagnostics).spec_errors().len() + 1,
        final(diagnostics).spec_errors().drop_last() == old(diagnostics).spec_errors(),
        final(diagnostics).spec_errors().last().kind == ErrorKind::Ownership,
        final(diagnostics).spec_errors().last().message@
            == crate::ownership::spec_ownership_error_message(error),
        final(diagnostics).spec_errors().last().span matches Some(s)
            && crate::diagnostics::spec_span_eq(s, *span),
        final(diagnostics).spec_errors().last().notes@.len() == 0,
        final(diagnostics).spec_errors().last().help is None,
        final(diagnostics).spec_warnings() == old(diagnostics).spec_warnings(),
{
    let report = CompileError::new(ErrorKind::Ownership, error.message().as_str()).with_span(
        span.duplicate(),
    );
    diagnostics.add_error(report);
}

/// Copies a list of names.
fn copy_names(names: &Vec<String>) -> (r: Vec<String>)
    ensures
        crate::types::name_views(r@) == crate::types::name_views(names@),
{
    let mut out: Vec<String> = Vec::new();
    let mut i: usize = 0;
    while i < names.len()
        invariant
            i <= names@.len(),
            out@.len() == i,
            forall|j: int| 0 <= j < i ==> out@[j]@ == names@[j]@,
        decreases names@.len() - i,
    {
        out.push(crate::strutil::str_copy(names[i].as_str()));
        i = i + 1;
    }
    proof {
        assert(crate::types::name_views(out@) =~= crate::types::name_views(names@));
    }
    out
}

/// Moves the registry out for the exhaustiveness checker's use; an empty
/// one stands in until it is restored.
fn take_registry(registry: &mut TypeChecker) -> (r: TypeChecker)
    ensures
        r == *old(registry),
        final(registry).wf(),
{
    let mut stand_in = TypeChecker::new();
    core::mem::swap(registry, &mut stand_in);
    stand_in
}

/// Takes the registry back from the exhaustiveness checker.
fn restore_registry(checker: ExhaustivenessChecker) -> (r: TypeChecker)
    ensures
        r == checker.registry(),
{
    checker.into_registry()
}

} // verus!
