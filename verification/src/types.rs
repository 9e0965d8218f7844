//! The type registry and subtyping engine: the closed `Type` language,
//! structural equality, class and interface registration, and the
//! `is_subtype` relation with its first-matching-rule semantics.

use vstd::prelude::*;

use crate::diagnostics::CompileError;
use crate::diagnostics::ErrorKind;
use crate::strutil::spec_decimal;
use crate::strutil::str_copy;
use crate::strutil::str_eq;
use crate::strutil::usize_to_string;
use crate::table::assoc_contains;
use crate::table::assoc_get;
use crate::table::assoc_put;
use crate::table::spec_assoc;

verus! {

/// The closed language of SafeLang types.
#[derive(Debug, PartialEq)]
pub enum Type {
    Void,
    Bool,
    Int,
    Float,
    String,
    Array(Box<Type>),
    Mapping(Box<Type>, Box<Type>),
    Function(Vec<Type>, Box<Type>),
    Class(String),
    Interface(String),
    Struct(String),
    Enum(String),
    Optional(Box<Type>),
    Union(Vec<Type>),
    Generic(String, Vec<Type>),
    Unknown,
}

/// A structural size measure: every proper component is strictly smaller.
pub open spec fn type_size(t: Type) -> nat
    decreases t,
{
    match t {
        Type::Array(elem) => 1 + type_size(*elem),
        Type::Mapping(key, value) => 1 + type_size(*key) + type_size(*value),
        Type::Function(params, ret) => 1 + type_list_size(params@) + type_size(*ret),
        Type::Optional(inner) => 1 + type_size(*inner),
        Type::Union(members) => 1 + type_list_size(members@),
        Type::Generic(_, args) => 1 + type_list_size(args@),
        _ => 1,
    }
}

/// The summed size of a list of types.
pub open spec fn type_list_size(ts: Seq<Type>) -> nat
    decreases ts,
{
    if ts.len() == 0 {
        0
    } else {
        type_size(ts[0]) + type_list_size(ts.drop_first())
    }
}

/// Each element of a list weighs no more than the whole list.
pub proof fn lemma_type_list_size_ge(ts: Seq<Type>, i: int)
    requires
        0 <= i < ts.len(),
    ensures
        type_size(ts[i]) <= type_list_size(ts),
    decreases i,
{
    if i > 0 {
        lemma_type_list_size_ge(ts.drop_first(), i - 1);
    }
}

/// Structural (deep) equality of two types; named types are compared by name.
pub open spec fn spec_type_eq(a: Type, b: Type) -> bool
    decreases a,
{
    match (a, b) {
        (Type::Void, Type::Void) => true,
        (Type::Bool, Type::Bool) => true,
        (Type::Int, Type::Int) => true,
        (Type::Float, Type::Float) => true,
        (Type::String, Type::String) => true,
        (Type::Unknown, Type::Unknown) => true,
        (Type::Array(x), Type::Array(y)) => spec_type_eq(*x, *y),
        (Type::Mapping(k1, v1), Type::Mapping(k2, v2)) => spec_type_eq(*k1, *k2) && spec_type_eq(
            *v1,
            *v2,
        ),
        (Type::Function(ps, r1), Type::Function(qs, r2)) => ps@.len() == qs@.len() && (forall|
            i: int,
        |
            0 <= i < ps@.len() ==> spec_type_eq(ps@[i], qs@[i])) && spec_type_eq(*r1, *r2),
        (Type::Class(n), Type::Class(m)) => n@ == m@,
        (Type::Interface(n), Type::Interface(m)) => n@ == m@,
        (Type::Struct(n), Type::Struct(m)) => n@ == m@,
        (Type::Enum(n), Type::Enum(m)) => n@ == m@,
        (Type::Optional(x), Type::Optional(y)) => spec_type_eq(*x, *y),
        (Type::Union(ts), Type::Union(us)) => ts@.len() == us@.len() && (forall|i: int|
            0 <= i < ts@.len() ==> spec_type_eq(ts@[i], us@[i])),
        (Type::Generic(n, ts), Type::Generic(m, us)) => n@ == m@ && ts@.len() == us@.len() && (
        forall|i: int| 0 <= i < ts@.len() ==> spec_type_eq(ts@[i], us@[i])),
        _ => false,
    }
}

/// Structural equality is reflexive.
pub proof fn lemma_type_eq_reflexive(t: Type)
    ensures
        spec_type_eq(t, t),
    decreases t,
{
    match t {
        Type::Array(x) => lemma_type_eq_reflexive(*x),
        Type::Mapping(k, v) => {
            lemma_type_eq_reflexive(*k);
            lemma_type_eq_reflexive(*v);
        },
        Type::Function(ps, r) => {
            assert forall|i: int| 0 <= i < ps@.len() implies spec_type_eq(ps@[i], ps@[i]) by {
                lemma_type_eq_reflexive(ps@[i]);
            }
            lemma_type_eq_reflexive(*r);
        },
        Type::Optional(x) => lemma_type_eq_reflexive(*x),
        Type::Union(ts) => {
            assert forall|i: int| 0 <= i < ts@.len() implies spec_type_eq(ts@[i], ts@[i]) by {
                lemma_type_eq_reflexive(ts@[i]);
            }
        },
        Type::Generic(_, ts) => {
            assert forall|i: int| 0 <= i < ts@.len() implies spec_type_eq(ts@[i], ts@[i]) by {
                lemma_type_eq_reflexive(ts@[i]);
            }
        },
        _ => {},
    }
}

/// Decides structural equality.
pub fn type_eq(a: &Type, b: &Type) -> (r: bool)
    ensures
        r == spec_type_eq(*a, *b),
    decreases type_size(*a), 0nat,
{
    match (a, b) {
        (Type::Void, Type::Void) => true,
        (Type::Bool, Type::Bool) => true,
        (Type::Int, Type::Int) => true,
        (Type::Float, Type::Float) => true,
        (Type::String, Type::String) => true,
        (Type::Unknown, Type::Unknown) => true,
        (Type::Array(x), Type::Array(y)) => type_eq(x, y),
        (Type::Mapping(k1, v1), Type::Mapping(k2, v2)) => type_eq(k1, k2) && type_eq(v1, v2),
        (Type::Function(ps, r1), Type::Function(qs, r2)) => {
            if ps.len() != qs.len() {
                return false;
            }
            if !type_list_eq(ps, qs) {
                return false;
            }
            type_eq(r1, r2)
        },
        (Type::Class(n), Type::Class(m)) => str_eq(n.as_str(), m.as_str()),
        (Type::Interface(n), Type::Interface(m)) => str_eq(n.as_str(), m.as_str()),
        (Type::Struct(n), Type::Struct(m)) => str_eq(n.as_str(), m.as_str()),
        (Type::Enum(n), Type::Enum(m)) => str_eq(n.as_str(), m.as_str()),
        (Type::Optional(x), Type::Optional(y)) => type_eq(x, y),
        (Type::Union(ts), Type::Union(us)) => ts.len() == us.len() && type_list_eq(ts, us),
        (Type::Generic(n, ts), Type::Generic(m, us)) => str_eq(n.as_str(), m.as_str()) && ts.len()
            == us.len() && type_list_eq(ts, us),
        _ => false,
    }
}

/// Decides element-wise structural equality of two equally long lists.
fn type_list_eq(ts: &Vec<Type>, us: &Vec<Type>) -> (r: bool)
    requires
        ts@.len() == us@.len(),
    ensures
        r == (forall|i: int| 0 <= i < ts@.len() ==> spec_type_eq(ts@[i], us@[i])),
    decreases type_list_size(ts@), 1nat,
{
    let mut i: usize = 0;
    while i < ts.len()
        invariant
            i <= ts@.len(),
            ts@.len() == us@.len(),
            forall|j: int| 0 <= j < i ==> spec_type_eq(ts@[j], us@[j]),
        decreases ts@.len() - i,
    {
        proof {
            lemma_type_list_size_ge(ts@, i as int);
        }
        if !type_eq(&ts[i], &us[i]) {
            return false;
        }
        i = i + 1;
    }
    true
}

/// One registered class together with all of its transitive ancestors,
/// nearest first.
#[derive(Clone, Debug)]
pub struct ClassEntry {
    pub name: String,
    pub ancestors: Vec<String>,
}

/// Whether a class of this name has been registered.
pub open spec fn spec_registered(classes: Seq<ClassEntry>, name: Seq<char>) -> bool {
    exists|i: int| 0 <= i < classes.len() && classes[i].name@ == name
}

/// Whether `sup` is a strict transitive ancestor of the class named `sub`.
pub open spec fn spec_has_ancestor(
    classes: Seq<ClassEntry>,
    sub: Seq<char>,
    sup: Seq<char>,
) -> bool {
    exists|i: int, j: int|
        0 <= i < classes.len() && classes[i].name@ == sub && 0 <= j < classes[i].ancestors@.len()
            && classes[i].ancestors@[j]@ == sup
}

/// Whether the class named `sub` is `sup` itself or one of its descendants.
pub open spec fn spec_subclass(classes: Seq<ClassEntry>, sub: Seq<char>, sup: Seq<char>) -> bool {
    sub == sup || spec_has_ancestor(classes, sub, sup)
}

/// Whether the class named `class`, or one of its ancestors, directly
/// implements the interface named `iface`.
pub open spec fn spec_implements(
    classes: Seq<ClassEntry>,
    impls: Seq<(String, String)>,
    class: Seq<char>,
    iface: Seq<char>,
) -> bool {
    exists|k: int|
        0 <= k < impls.len() && impls[k].0@ == iface && spec_subclass(classes, class, impls[k].1@)
}

/// The ancestor names of the first registered class called `name`; empty when
/// none is registered.
pub open spec fn spec_ancestors_of(classes: Seq<ClassEntry>, name: Seq<char>) -> Seq<Seq<char>>
    decreases classes.len(),
{
    if classes.len() == 0 {
        Seq::empty()
    } else if classes[0].name@ == name {
        name_views(classes[0].ancestors@)
    } else {
        spec_ancestors_of(classes.drop_first(), name)
    }
}

/// The character sequences of a list of names.
pub open spec fn name_views(names: Seq<String>) -> Seq<Seq<char>> {
    names.map_values(|s: String| s@)
}

/// The `is_subtype` relation, evaluated by first-matching rule: structural
/// equality; an optional admits its base; nominal class and interface rules;
/// covariant arrays; functions with contravariant parameters and covariant
/// return; a union on the left must be wholly substitutable, one on the right
/// admits any member.
pub open spec fn spec_is_subtype(
    classes: Seq<ClassEntry>,
    impls: Seq<(String, String)>,
    sub: Type,
    sup: Type,
) -> bool
    decreases type_size(sub) + type_size(sup),
    via spec_is_subtype_decreases
{
    if spec_type_eq(sub, sup) {
        true
    } else {
        match (sub, sup) {
            (s, Type::Optional(inner)) => spec_is_subtype(classes, impls, s, *inner),
            (Type::Class(a), Type::Class(b)) => spec_subclass(classes, a@, b@),
            (Type::Class(c), Type::Interface(i)) => spec_implements(classes, impls, c@, i@),
            (Type::Array(x), Type::Array(y)) => spec_is_subtype(classes, impls, *x, *y),
            (Type::Function(ps, r1), Type::Function(qs, r2)) => ps@.len() == qs@.len() && (forall|
                i: int,
            |
                0 <= i < ps@.len() ==> spec_is_subtype(classes, impls, qs@[i], ps@[i]))
                && spec_is_subtype(classes, impls, *r1, *r2),
            (Type::Union(ms), s) => forall|i: int|
                0 <= i < ms@.len() ==> spec_is_subtype(classes, impls, ms@[i], s),
            (s, Type::Union(ms)) => exists|i: int|
                0 <= i < ms@.len() && spec_is_subtype(classes, impls, s, ms@[i]),
            _ => false,
        }
    }
}

#[via_fn]
proof fn spec_is_subtype_decreases(
    classes: Seq<ClassEntry>,
    impls: Seq<(String, String)>,
    sub: Type,
    sup: Type,
) {
    if let Type::Function(ps, _) = sub {
        assert forall|i: int| 0 <= i < ps@.len() implies type_size(ps@[i]) <= type_list_size(
            ps@,
        ) by {
            lemma_type_list_size_ge(ps@, i);
        }
    }
    if let Type::Function(qs, _) = sup {
        assert forall|i: int| 0 <= i < qs@.len() implies type_size(qs@[i]) <= type_list_size(
            qs@,
        ) by {
            lemma_type_list_size_ge(qs@, i);
        }
    }
    if let Type::Union(ms) = sub {
        assert forall|i: int| 0 <= i < ms@.len() implies type_size(ms@[i]) <= type_list_size(
            ms@,
        ) by {
            lemma_type_list_size_ge(ms@, i);
        }
    }
    if let Type::Union(ms) = sup {
        assert forall|i: int| 0 <= i < ms@.len() implies type_size(ms@[i]) <= type_list_size(
            ms@,
        ) by {
            lemma_type_list_size_ge(ms@, i);
        }
    }
}

/// An error from a registry or assignment-compatibility query.
#[derive(Clone, Debug)]
pub enum TypeError {
    UndefinedVariable(String),
    UndefinedType(String),
    IncompatibleTypes(String, String),
    NotCallable(String),
    WrongNumberOfArguments(usize, usize),
    MemberNotFound(String, String),
    NotIndexable(String),
    InvalidOperator(String, String, String),
}

/// Holds type declarations and class/interface relations, and answers
/// subtyping and assignment-compatibility queries.
#[derive(Debug)]
pub struct TypeChecker {
    type_env: Vec<(String, Type)>,
    class_hierarchy: Vec<ClassEntry>,
    interface_implementations: Vec<(String, String)>,
    enum_definitions: Vec<(String, EnumDefinition)>,
}

impl TypeChecker {
    /// The registered classes with their precomputed ancestor sets.
    pub closed spec fn classes(&self) -> Seq<ClassEntry> {
        self.class_hierarchy@
    }

    /// The registered (interface, class) implementation pairs.
    pub closed spec fn impls(&self) -> Seq<(String, String)> {
        self.interface_implementations@
    }

    /// The declared variables.
    pub closed spec fn vars(&self) -> Seq<(String, Type)> {
        self.type_env@
    }

    /// Well-formedness: class names are unique, and every ancestor is the
    /// name of a class registered strictly earlier. The latter rules out
    /// cycles: no chain of ancestors can return to its starting class.
    pub open spec fn spec_wf_classes(classes: Seq<ClassEntry>) -> bool {
        (forall|i: int, j: int|
            0 <= i < j < classes.len() ==> classes[i].name@ != classes[j].name@) && (forall|
            i: int,
            j: int,
        |
            0 <= i < classes.len() && 0 <= j < classes[i].ancestors@.len()
                ==> spec_registered_before(classes, classes[i].ancestors@[j]@, i))
    }

    /// Well-formedness of the whole registry.
    pub open spec fn wf(&self) -> bool {
        Self::spec_wf_classes(self.classes())
    }

    /// An empty registry.
    pub fn new() -> (r: TypeChecker)
        ensures
            r.wf(),
            r.classes().len() == 0,
            r.impls().len() == 0,
            r.vars().len() == 0,
            r.enums().len() == 0,
    {
        TypeChecker {
            type_env: Vec::new(),
            class_hierarchy: Vec::new(),
            interface_implementations: Vec::new(),
            enum_definitions: Vec::new(),
        }
    }

    /// Declares (or redeclares) a variable with its type.
    pub fn add_variable(&mut self, name: &str, type_: Type)
        ensures
            final(self).wf() == old(self).wf(),
            final(self).classes() == old(self).classes(),
            final(self).impls() == old(self).impls(),
            spec_assoc(final(self).vars(), name@) == Some(type_),
            forall|other: Seq<char>|
                other != name@ ==> spec_assoc(final(self).vars(), other) == spec_assoc(
                    old(self).vars(),
                    other,
                ),
    {
        assoc_put(&mut self.type_env, str_copy(name), type_);
    }

    /// The declared type of a variable, if any.
    pub fn get_variable_type(&self, name: &str) -> (r: Option<&Type>)
        ensures
            match r {
                Some(t) => spec_assoc(self.vars(), name@) == Some(*t),
                None => spec_assoc(self.vars(), name@) is None,
            },
    {
        assoc_get(&self.type_env, name)
    }

    /// Registers a class, optionally under a parent. Fails with a `Name`
    /// error if the name is taken and with a `Reference` error if the parent
    /// is named but unregistered; a failed call leaves the registry
    /// unchanged. A cycle cannot arise here: the new class is not yet
    /// registered, so it cannot stand among the (already registered)
    /// ancestors of its parent.
    pub fn add_class(&mut self, name: &str, parent: Option<&str>) -> (r: Result<(), CompileError>)
        requires
            old(self).wf(),
        ensures
            final(self).wf(),
            final(self).impls() == old(self).impls(),
            final(self).vars() == old(self).vars(),
            final(self).enums() == old(self).enums(),
            r is Err ==> final(self).classes() == old(self).classes(),
            spec_registered(old(self).classes(), name@) ==> (r matches Err(e) && e.kind
                == ErrorKind::Name && e.message@ == "class is already registered"@),
            !spec_registered(old(self).classes(), name@) && (parent matches Some(p)
                && !spec_registered(old(self).classes(), p@)) ==> (r matches Err(e) && e.kind
                == ErrorKind::Reference && e.message@ == "parent class is not registered"@),
            r matches Err(e) ==> e.notes@.len() == 0 && e.help is None && e.span is None,
            !spec_registered(old(self).classes(), name@) && (parent matches Some(p)
                ==> spec_registered(old(self).classes(), p@)) ==> r is Ok,
            r is Ok ==> {
                &&& final(self).classes().len() == old(self).classes().len() + 1
                &&& final(self).classes().drop_last() == old(self).classes()
                &&& final(self).classes().last().name@ == name@
                &&& name_views(final(self).classes().last().ancestors@) == (match parent {
                    Some(p) => seq![p@] + spec_ancestors_of(old(self).classes(), p@),
                    None => Seq::<Seq<char>>::empty(),
                })
            },
    {
        if self.contains_class(name) {
            return Err(CompileError::new(ErrorKind::Name, "class is already registered"));
        }
        let mut ancestors: Vec<String> = Vec::new();
        let ghost mut parent_index: int = 0;
        match parent {
            Some(p) => {
                match self.find_class_index(p) {
                    Some(ix) => {
                        proof {
                            parent_index = ix as int;
                            lemma_ancestors_of_hit(self.classes(), p@, ix as int);
                        }
                        ancestors.push(str_copy(p));
                        let mut i: usize = 0;
                        while i < self.class_hierarchy[ix].ancestors.len()
                            invariant
                                0 <= ix < self.classes().len(),
                                self.classes() == old(self).classes(),
                                i <= self.classes()[ix as int].ancestors@.len(),
                                ancestors@.len() == i + 1,
                                ancestors@[0]@ == p@,
                                forall|j: int|
                                    0 <= j < i
                                        ==> ancestors@[j + 1]@
                                        == self.classes()[ix as int].ancestors@[j]@,
                            decreases self.classes()[ix as int].ancestors@.len() - i,
                        {
                            let next = str_copy(self.class_hierarchy[ix].ancestors[i].as_str());
                            ancestors.push(next);
                            i = i + 1;
                        }
                        proof {
                            assert(name_views(ancestors@) =~= seq![p@] + name_views(
                                self.classes()[ix as int].ancestors@,
                            ));
                        }
                    },
                    None => {
                        return Err(
                            CompileError::new(
                                ErrorKind::Reference,
                                "parent class is not registered",
                            ),
                        );
                    },
                }
            },
            None => {},
        }
        let entry = ClassEntry { name: str_copy(name), ancestors };
        let ghost orig = self.class_hierarchy@;
        self.class_hierarchy.push(entry);
        proof {
            let updated = self.class_hierarchy@;
            assert(updated.drop_last() =~= orig);
            let ni = orig.len() as int;
            assert forall|i: int, j: int|
                0 <= i < updated.len() && 0 <= j < updated[i].ancestors@.len()
                    implies spec_registered_before(updated, updated[i].ancestors@[j]@, i) by {
                if i < ni {
                    assert(updated[i] == orig[i]);
                    assert(spec_registered_before(orig, orig[i].ancestors@[j]@, i));
                    let k = choose|k: int|
                        0 <= k < i && k < orig.len() && orig[k].name@ == orig[i].ancestors@[j]@;
                    assert(updated[k] == orig[k]);
                } else {
                    match parent {
                        Some(p) => {
                            let px = parent_index;
                            let a = updated[i].ancestors@[j]@;
                            if j == 0 {
                                assert(a == p@);
                                assert(updated[px].name@ == p@);
                            } else {
                                assert(a == orig[px].ancestors@[j - 1]@);
                                assert(spec_registered_before(orig, a, px));
                                let k2 = choose|k2: int|
                                    0 <= k2 < px && k2 < orig.len() && orig[k2].name@ == a;
                                assert(updated[k2] == orig[k2]);
                            }
                        },
                        None => {
                            assert(updated[i].ancestors@.len() == 0);
                        },
                    }
                }
            }
        }
        Ok(())
    }

    /// Registers that `class_name` implements `interface_name`. Requires the
    /// class to be registered already (`Reference` error otherwise); a failed
    /// call leaves the registry unchanged.
    pub fn add_interface_implementation(&mut self, class_name: &str, interface_name: &str) -> (r:
        Result<(), CompileError>)
        ensures
            final(self).classes() == old(self).classes(),
            final(self).vars() == old(self).vars(),
            final(self).enums() == old(self).enums(),
            final(self).wf() == old(self).wf(),
            r is Ok <==> spec_registered(old(self).classes(), class_name@),
            r matches Err(e) ==> e.kind == ErrorKind::Reference && e.message@
                == "implementing class is not registered"@ && e.notes@.len() == 0 && e.help
                is None && e.span is None && final(self).impls() == old(self).impls(),
            r is Ok ==> {
                &&& final(self).impls().len() == old(self).impls().len() + 1
                &&& final(self).impls().drop_last() == old(self).impls()
                &&& final(self).impls().last().0@ == interface_name@
                &&& final(self).impls().last().1@ == class_name@
            },
    {
        if !self.contains_class(class_name) {
            return Err(
                CompileError::new(ErrorKind::Reference, "implementing class is not registered"),
            );
        }
        self.interface_implementations.push((str_copy(interface_name), str_copy(class_name)));
        proof {
            assert(self.interface_implementations@.drop_last()
                =~= old(self).interface_implementations@);
        }
        Ok(())
    }

    /// Whether a class of this name is registered.
    pub fn contains_class(&self, name: &str) -> (r: bool)
        ensures
            r == spec_registered(self.classes(), name@),
    {
        let mut i: usize = 0;
        while i < self.class_hierarchy.len()
            invariant
                i <= self.classes().len(),
                forall|j: int| 0 <= j < i ==> self.classes()[j].name@ != name@,
            decreases self.classes().len() - i,
        {
            if str_eq(self.class_hierarchy[i].name.as_str(), name) {
                return true;
            }
            i = i + 1;
        }
        false
    }

    /// The index of the first registered class of this name.
    fn find_class_index(&self, name: &str) -> (r: Option<usize>)
        ensures
            match r {
                Some(ix) => 0 <= ix < self.classes().len() && self.classes()[ix as int].name@
                    == name@ && (forall|j: int|
                    0 <= j < ix ==> self.classes()[j].name@ != name@),
                None => !spec_registered(self.classes(), name@),
            },
    {
        let mut i: usize = 0;
        while i < self.class_hierarchy.len()
            invariant
                i <= self.classes().len(),
                forall|j: int| 0 <= j < i ==> self.classes()[j].name@ != name@,
            decreases self.classes().len() - i,
        {
            if str_eq(self.class_hierarchy[i].name.as_str(), name) {
                return Some(i);
            }
            i = i + 1;
        }
        None
    }
}

/// `spec_registered`, bounded to the classes before index `bound`.
pub open spec fn spec_registered_before(
    classes: Seq<ClassEntry>,
    name: Seq<char>,
    bound: int,
) -> bool {
    exists|k: int| 0 <= k < bound && k < classes.len() && classes[k].name@ == name
}

/// A prefix miss makes the first matching class the one `spec_ancestors_of`
/// describes.
proof fn lemma_ancestors_of_hit(classes: Seq<ClassEntry>, name: Seq<char>, i: int)
    requires
        0 <= i < classes.len(),
        classes[i].name@ == name,
        forall|j: int| 0 <= j < i ==> classes[j].name@ != name,
    ensures
        spec_ancestors_of(classes, name) == name_views(classes[i].ancestors@),
    decreases i,
{
    if i > 0 {
        assert(classes.drop_first() =~= classes.subrange(1, classes.len() as int));
        lemma_ancestors_of_hit(classes.drop_first(), name, i - 1);
    }
}


impl TypeChecker {
    /// Whether the class named `sub` is `super_` itself or one of its
    /// transitive descendants.
    fn is_subclass(&self, sub: &str, super_: &str) -> (r: bool)
        requires
            self.wf(),
        ensures
            r == spec_subclass(self.classes(), sub@, super_@),
    {
        if str_eq(sub, super_) {
            return true;
        }
        match self.find_class_index(sub) {
            Some(ix) => {
                let mut j: usize = 0;
                let ghost classes = self.classes();
                while j < self.class_hierarchy[ix].ancestors.len()
                    invariant
                        self.wf(),
                        self.classes() == classes,
                        0 <= ix < classes.len(),
                        classes[ix as int].name@ == sub@,
                        j <= classes[ix as int].ancestors@.len(),
                        forall|j2: int|
                            0 <= j2 < j ==> classes[ix as int].ancestors@[j2]@ != super_@,
                    decreases classes[ix as int].ancestors@.len() - j,
                {
                    if str_eq(self.class_hierarchy[ix].ancestors[j].as_str(), super_) {
                        return true;
                    }
                    j = j + 1;
                }
                proof {
                    assert forall|i2: int, j2: int|
                        !(0 <= i2 < classes.len() && classes[i2].name@ == sub@ && 0 <= j2
                            < classes[i2].ancestors@.len() && classes[i2].ancestors@[j2]@
                            == super_@) by {
                        if 0 <= i2 < classes.len() && classes[i2].name@ == sub@ {
                            assert(i2 == ix);
                        }
                    }
                }
                false
            },
            None => {
                proof {
                    assert forall|i2: int, j2: int|
                        !(0 <= i2 < self.classes().len() && self.classes()[i2].name@ == sub@ && 0
                            <= j2 < self.classes()[i2].ancestors@.len()
                            && self.classes()[i2].ancestors@[j2]@ == super_@) by {
                        if 0 <= i2 < self.classes().len() && self.classes()[i2].name@ == sub@ {
                            assert(spec_registered(self.classes(), sub@));
                        }
                    }
                }
                false
            },
        }
    }

    /// Whether the class named `class_name`, or one of its ancestors,
    /// directly implements `interface_name`.
    fn implements_interface(&self, class_name: &str, interface_name: &str) -> (r: bool)
        requires
            self.wf(),
        ensures
            r == spec_implements(self.classes(), self.impls(), class_name@, interface_name@),
    {
        let mut k: usize = 0;
        while k < self.interface_implementations.len()
            invariant
                self.wf(),
                k <= self.impls().len(),
                forall|k2: int|
                    0 <= k2 < k ==> !(self.impls()[k2].0@ == interface_name@ && spec_subclass(
                        self.classes(),
                        class_name@,
                        self.impls()[k2].1@,
                    )),
            decreases self.impls().len() - k,
        {
            if str_eq(self.interface_implementations[k].0.as_str(), interface_name) {
                if self.is_subclass(class_name, self.interface_implementations[k].1.as_str()) {
                    return true;
                }
            }
            k = k + 1;
        }
        false
    }

    /// Decides the `is_subtype` relation against this registry.
    #[verifier::loop_isolation(false)]
    pub fn is_subtype(&self, sub: &Type, super_: &Type) -> (r: bool)
        requires
            self.wf(),
        ensures
            r == spec_is_subtype(self.classes(), self.impls(), *sub, *super_),
        decreases type_size(*sub) + type_size(*super_),
    {
        if type_eq(sub, super_) {
            return true;
        }
        match (sub, super_) {
            (s, Type::Optional(inner)) => self.is_subtype(s, inner),
            (Type::Class(a), Type::Class(b)) => self.is_subclass(a.as_str(), b.as_str()),
            (Type::Class(c), Type::Interface(i)) => self.implements_interface(
                c.as_str(),
                i.as_str(),
            ),
            (Type::Array(x), Type::Array(y)) => self.is_subtype(x, y),
            (Type::Function(ps, r1), Type::Function(qs, r2)) => {
                if ps.len() != qs.len() {
                    return false;
                }
                let mut i: usize = 0;
                while i < ps.len()
                    invariant
                        self.wf(),
                        ps@.len() == qs@.len(),
                        i <= ps@.len(),
                        type_size(*sub) == 1 + type_list_size(ps@) + type_size(**r1),
                        type_size(*super_) == 1 + type_list_size(qs@) + type_size(**r2),
                        forall|j: int|
                            0 <= j < i ==> spec_is_subtype(
                                self.classes(),
                                self.impls(),
                                qs@[j],
                                ps@[j],
                            ),
                    decreases ps@.len() - i,
                {
                    proof {
                        lemma_type_list_size_ge(ps@, i as int);
                        lemma_type_list_size_ge(qs@, i as int);
                    }
                    if !self.is_subtype(&qs[i], &ps[i]) {
                        return false;
                    }
                    i = i + 1;
                }
                self.is_subtype(r1, r2)
            },
            (Type::Union(ms), s) => {
                let mut i: usize = 0;
                while i < ms.len()
                    invariant
                        self.wf(),
                        i <= ms@.len(),
                        type_size(*sub) == 1 + type_list_size(ms@),
                        *super_ == *s,
                        forall|j: int|
                            0 <= j < i ==> spec_is_subtype(self.classes(), self.impls(), ms@[j], *s),
                    decreases ms@.len() - i,
                {
                    proof {
                        lemma_type_list_size_ge(ms@, i as int);
                    }
                    if !self.is_subtype(&ms[i], s) {
                        return false;
                    }
                    i = i + 1;
                }
                true
            },
            (s, Type::Union(ms)) => {
                let mut i: usize = 0;
                while i < ms.len()
                    invariant
                        self.wf(),
                        i <= ms@.len(),
                        type_size(*super_) == 1 + type_list_size(ms@),
                        *sub == *s,
                        forall|j: int|
                            0 <= j < i ==> !spec_is_subtype(
                                self.classes(),
                                self.impls(),
                                *s,
                                ms@[j],
                            ),
                    decreases ms@.len() - i,
                {
                    proof {
                        lemma_type_list_size_ge(ms@, i as int);
                    }
                    if self.is_subtype(s, &ms[i]) {
                        return true;
                    }
                    i = i + 1;
                }
                false
            },
            _ => false,
        }
    }

    /// Checks that a value of `value_type` may be assigned to a target of
    /// `target_type`: exactly the subtype test, with a rendered mismatch
    /// report on failure.
    pub fn check_assignment(&self, target_type: &Type, value_type: &Type) -> (r: Result<
        (),
        TypeError,
    >)
        requires
            self.wf(),
        ensures
            r is Ok <==> spec_is_subtype(self.classes(), self.impls(), *value_type, *target_type),
            r matches Err(e) ==> (e matches TypeError::IncompatibleTypes(from, to) && from@
                == spec_type_name(*value_type) && to@ == spec_type_name(*target_type)),
    {
        if self.is_subtype(value_type, target_type) {
            Ok(())
        } else {
            Err(TypeError::IncompatibleTypes(render_type(value_type), render_type(target_type)))
        }
    }
}

/// `is_subtype` is reflexive: every type is substitutable for itself.
pub proof fn lemma_is_subtype_reflexive(
    classes: Seq<ClassEntry>,
    impls: Seq<(String, String)>,
    t: Type,
)
    ensures
        spec_is_subtype(classes, impls, t, t),
{
    lemma_type_eq_reflexive(t);
}

/// A type is a subtype of its own optional wrapper.
pub proof fn lemma_optional_admits_base(
    classes: Seq<ClassEntry>,
    impls: Seq<(String, String)>,
    t: Type,
)
    ensures
        spec_is_subtype(classes, impls, t, Type::Optional(Box::new(t))),
{
    lemma_is_subtype_reflexive(classes, impls, t);
}

/// With the registry unchanged, two subtype queries on the same pair of types
/// give the same answer: the relation is a function of its arguments.
pub proof fn lemma_is_subtype_deterministic(
    classes: Seq<ClassEntry>,
    impls: Seq<(String, String)>,
    sub: Type,
    sup: Type,
    r1: bool,
    r2: bool,
)
    requires
        r1 == spec_is_subtype(classes, impls, sub, sup),
        r2 == spec_is_subtype(classes, impls, sub, sup),
    ensures
        r1 == r2,
{
}

/// The rendered (display) name of a type.
pub open spec fn spec_type_name(t: Type) -> Seq<char>
    decreases type_size(t), 0nat,
{
    match t {
        Type::Void => "void"@,
        Type::Bool => "bool"@,
        Type::Int => "int"@,
        Type::Float => "float"@,
        Type::String => "string"@,
        Type::Array(elem) => spec_type_name(*elem) + "[]"@,
        Type::Mapping(key, value) => "Map<"@ + spec_type_name(*key) + ", "@ + spec_type_name(
            *value,
        ) + ">"@,
        Type::Function(ps, ret) => "function("@ + spec_type_name_list(ps@, ", "@) + "): "@
            + spec_type_name(*ret),
        Type::Class(n) => n@,
        Type::Interface(n) => n@,
        Type::Struct(n) => n@,
        Type::Enum(n) => n@,
        Type::Optional(inner) => spec_type_name(*inner) + "?"@,
        Type::Union(ts) => spec_type_name_list(ts@, " | "@),
        Type::Generic(n, ts) => n@ + "<"@ + spec_type_name_list(ts@, ", "@) + ">"@,
        Type::Unknown => "unknown"@,
    }
}

/// The rendered names of a list of types, separated by `sep`.
pub open spec fn spec_type_name_list(ts: Seq<Type>, sep: Seq<char>) -> Seq<char>
    decreases type_list_size(ts), 1nat,
{
    if ts.len() == 0 {
        Seq::empty()
    } else if ts.len() == 1 {
        spec_type_name(ts[0])
    } else {
        spec_type_name(ts[0]) + sep + spec_type_name_list(ts.drop_first(), sep)
    }
}

/// Appending one type extends the rendered list on the right.
proof fn lemma_type_name_list_push(ts: Seq<Type>, sep: Seq<char>, t: Type)
    ensures
        spec_type_name_list(ts.push(t), sep) == if ts.len() == 0 {
            spec_type_name(t)
        } else {
            spec_type_name_list(ts, sep) + sep + spec_type_name(t)
        },
    decreases ts.len(),
{
    let pushed = ts.push(t);
    if ts.len() == 0 {
        assert(pushed.len() == 1);
        assert(pushed[0] == t);
    } else {
        assert(pushed[0] == ts[0]);
        assert(pushed.drop_first() =~= ts.drop_first().push(t));
        lemma_type_name_list_push(ts.drop_first(), sep, t);
        if ts.len() == 1 {
            assert(ts.drop_first().len() == 0);
            assert(spec_type_name_list(pushed, sep) == spec_type_name(ts[0]) + sep
                + spec_type_name(t));
        } else {
            assert(spec_type_name_list(ts, sep) == spec_type_name(ts[0]) + sep
                + spec_type_name_list(ts.drop_first(), sep));
            assert(spec_type_name_list(pushed, sep) == spec_type_name(ts[0]) + sep + (
            spec_type_name_list(ts.drop_first(), sep) + sep + spec_type_name(t)));
            assert(spec_type_name_list(pushed, sep) =~= spec_type_name_list(ts, sep) + sep
                + spec_type_name(t));
        }
    }
}

/// Renders the display name of a type.
pub fn render_type(t: &Type) -> (r: String)
    ensures
        r@ == spec_type_name(*t),
    decreases type_size(*t), 2nat,
{
    match t {
        Type::Void => str_copy("void"),
        Type::Bool => str_copy("bool"),
        Type::Int => str_copy("int"),
        Type::Float => str_copy("float"),
        Type::String => str_copy("string"),
        Type::Array(elem) => {
            let mut out = render_type(elem);
            out.append("[]");
            out
        },
        Type::Mapping(key, value) => {
            let mut out = str_copy("Map<");
            out.append(render_type(key).as_str());
            out.append(", ");
            out.append(render_type(value).as_str());
            out.append(">");
            out
        },
        Type::Function(ps, ret) => {
            let mut out = str_copy("function(");
            out.append(render_type_list(ps, ", ").as_str());
            out.append("): ");
            out.append(render_type(ret).as_str());
            out
        },
        Type::Class(n) => str_copy(n.as_str()),
        Type::Interface(n) => str_copy(n.as_str()),
        Type::Struct(n) => str_copy(n.as_str()),
        Type::Enum(n) => str_copy(n.as_str()),
        Type::Optional(inner) => {
            let mut out = render_type(inner);
            out.append("?");
            out
        },
        Type::Union(ts) => render_type_list(ts, " | "),
        Type::Generic(n, ts) => {
            let mut out = str_copy(n.as_str());
            out.append("<");
            out.append(render_type_list(ts, ", ").as_str());
            out.append(">");
            out
        },
        Type::Unknown => str_copy("unknown"),
    }
}

/// Renders a separated list of type names.
fn render_type_list(ts: &Vec<Type>, sep: &str) -> (r: String)
    ensures
        r@ == spec_type_name_list(ts@, sep@),
    decreases type_list_size(ts@), 3nat,
{
    let mut out = String::new();
    let mut i: usize = 0;
    while i < ts.len()
        invariant
            i <= ts@.len(),
            out@ == spec_type_name_list(ts@.subrange(0, i as int), sep@),
        decreases ts@.len() - i,
    {
        proof {
            lemma_type_list_size_ge(ts@, i as int);
        }
        if i > 0 {
            out.append(sep);
        }
        out.append(render_type(&ts[i]).as_str());
        proof {
            let prefix = ts@.subrange(0, i as int);
            lemma_type_name_list_push(prefix, sep@, ts@[i as int]);
            assert(prefix.push(ts@[i as int]) =~= ts@.subrange(0, i + 1));
        }
        i = i + 1;
    }
    proof {
        assert(ts@.subrange(0, ts@.len() as int) =~= ts@);
    }
    out
}


/// The rendered message of a registry or assignment error.
pub open spec fn spec_type_error_message(e: TypeError) -> Seq<char> {
    match e {
        TypeError::UndefinedVariable(name) => "Undefined variable: "@ + name@,
        TypeError::UndefinedType(name) => "Undefined type: "@ + name@,
        TypeError::IncompatibleTypes(from, to) => "Cannot assign value of type "@ + from@
            + " to variable of type "@ + to@,
        TypeError::NotCallable(t) => "Type "@ + t@ + " is not callable"@,
        TypeError::WrongNumberOfArguments(expected, actual) => "Expected "@ + spec_decimal(
            expected as nat,
        ) + " arguments but got "@ + spec_decimal(actual as nat),
        TypeError::MemberNotFound(t, member) => "Member "@ + member@ + " not found in type "@
            + t@,
        TypeError::NotIndexable(t) => "Type "@ + t@ + " is not indexable"@,
        TypeError::InvalidOperator(op, left, right) => "Operator "@ + op@
            + " not defined for types "@ + left@ + " and "@ + right@,
    }
}

impl TypeError {
    /// Renders the error as its user-facing message.
    pub fn message(&self) -> (r: String)
        ensures
            r@ == spec_type_error_message(*self),
    {
        match self {
            TypeError::UndefinedVariable(name) => {
                let mut out = str_copy("Undefined variable: ");
                out.append(name.as_str());
                out
            },
            TypeError::UndefinedType(name) => {
                let mut out = str_copy("Undefined type: ");
                out.append(name.as_str());
                out
            },
            TypeError::IncompatibleTypes(from, to) => {
                let mut out = str_copy("Cannot assign value of type ");
                out.append(from.as_str());
                out.append(" to variable of type ");
                out.append(to.as_str());
                out
            },
            TypeError::NotCallable(t) => {
                let mut out = str_copy("Type ");
                out.append(t.as_str());
                out.append(" is not callable");
                out
            },
            TypeError::WrongNumberOfArguments(expected, actual) => {
                let mut out = str_copy("Expected ");
                out.append(usize_to_string(*expected).as_str());
                out.append(" arguments but got ");
                out.append(usize_to_string(*actual).as_str());
                out
            },
            TypeError::MemberNotFound(t, member) => {
                let mut out = str_copy("Member ");
                out.append(member.as_str());
                out.append(" not found in type ");
                out.append(t.as_str());
                out
            },
            TypeError::NotIndexable(t) => {
                let mut out = str_copy("Type ");
                out.append(t.as_str());
                out.append(" is not indexable");
                out
            },
            TypeError::InvalidOperator(op, left, right) => {
                let mut out = str_copy("Operator ");
                out.append(op.as_str());
                out.append(" not defined for types ");
                out.append(left.as_str());
                out.append(" and ");
                out.append(right.as_str());
                out
            },
        }
    }
}

/// A declared enum: its name and its ordered variant names.
#[derive(Clone, Debug)]
pub struct EnumDefinition {
    pub name: String,
    pub variants: Vec<String>,
}

impl TypeChecker {
    /// The registered enum declarations.
    pub closed spec fn enums(&self) -> Seq<(String, EnumDefinition)> {
        self.enum_definitions@
    }

    /// Registers an enum declaration; fails with a `Name` error if one of
    /// this name is already registered, leaving the registry unchanged.
    pub fn add_enum(&mut self, definition: EnumDefinition) -> (r: Result<(), CompileError>)
        ensures
            final(self).classes() == old(self).classes(),
            final(self).impls() == old(self).impls(),
            final(self).vars() == old(self).vars(),
            final(self).wf() == old(self).wf(),
            r is Ok <==> spec_assoc(old(self).enums(), definition.name@) is None,
            r matches Err(e) ==> e.kind == ErrorKind::Name && e.message@
                == "enum is already registered"@ && e.notes@.len() == 0 && e.help is None
                && e.span is None && final(self).enums() == old(self).enums(),
            r is Ok ==> spec_assoc(final(self).enums(), definition.name@) == Some(definition)
                && (forall|other: Seq<char>|
                other != definition.name@ ==> spec_assoc(final(self).enums(), other) == spec_assoc(
                    old(self).enums(),
                    other,
                )),
            r is Ok ==> {
                &&& final(self).enums().len() == old(self).enums().len() + 1
                &&& final(self).enums().drop_last() == old(self).enums()
                &&& final(self).enums().last().0@ == definition.name@
                &&& final(self).enums().last().1 == definition
            },
    {
        if assoc_contains(&self.enum_definitions, definition.name.as_str()) {
            return Err(CompileError::new(ErrorKind::Name, "enum is already registered"));
        }
        let key = str_copy(definition.name.as_str());
        let ghost dname = definition.name@;
        assoc_put(&mut self.enum_definitions, key, definition);
        Ok(())
    }

    /// The registered enum of this name, if any.
    pub fn get_enum(&self, name: &str) -> (r: Option<&EnumDefinition>)
        ensures
            match r {
                Some(def) => spec_assoc(self.enums(), name@) == Some(*def),
                None => spec_assoc(self.enums(), name@) is None,
            },
    {
        assoc_get(&self.enum_definitions, name)
    }
}

} // verus!
