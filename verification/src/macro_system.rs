//! The macro layer of the bootstrap compiler: a registry of macro
//! definitions, a validator that flags invocations of unknown macros, and an
//! expander that erases invocations of registered ones.

use vstd::prelude::*;
use vstd::string::StringExecFns;

use crate::ast::ASTNode;
use crate::ast::MacroDefinition;
use crate::ast::MacroInvocation;
use crate::ast::AST;
use crate::diagnostics::CompileError;
use crate::diagnostics::ErrorKind;
use crate::strutil::str_copy;
use crate::table::assoc_contains;
use crate::table::assoc_put;
use crate::table::spec_assoc;

verus! {

/// Whether a node invokes a macro that the table does not define.
pub open spec fn spec_unknown_invocation(
    node: ASTNode,
    macros: Seq<(String, MacroDefinition)>,
) -> bool {
    node matches ASTNode::MacroInvocation(inv) && spec_assoc(macros, inv.name@) is None
}

/// Expands macro invocations against a registry of definitions.
#[derive(Debug)]
pub struct MacroSystem {
    macros: Vec<(String, MacroDefinition)>,
}

impl MacroSystem {
    /// The registered definitions, by name.
    pub closed spec fn spec_macros(&self) -> Seq<(String, MacroDefinition)> {
        self.macros@
    }

    /// An empty registry.
    pub fn new() -> (r: MacroSystem)
        ensures
            r.spec_macros().len() == 0,
    {
        MacroSystem { macros: Vec::new() }
    }

    /// Registers a definition under `name`; a second registration of the
    /// same name replaces the earlier definition.
    pub fn register_macro(&mut self, name: String, definition: MacroDefinition)
        ensures
            spec_assoc(final(self).spec_macros(), name@) == Some(definition),
            forall|other: Seq<char>|
                other != name@ ==> spec_assoc(final(self).spec_macros(), other) == spec_assoc(
                    old(self).spec_macros(),
                    other,
                ),
    {
        assoc_put(&mut self.macros, name, definition);
    }

    /// Expands the tree's top-level macro invocations: registered ones are
    /// erased, unknown ones stay and are each reported once.
    pub fn expand_macros(&self, ast: &mut AST) -> (r: Result<(), Vec<CompileError>>)
        ensures
            forall|j: int|
                0 <= j < final(ast).nodes@.len() ==> !(#[trigger] final(ast).nodes@[j]
                    matches ASTNode::MacroInvocation(inv) && spec_assoc(
                    self.spec_macros(),
                    inv.name@,
                ) is Some),
            r is Ok <==> (forall|j: int|
                0 <= j < final(ast).nodes@.len() ==> !spec_unknown_invocation(
                    #[trigger] final(ast).nodes@[j],
                    self.spec_macros(),
                )),
    {
        let mut errors: Vec<CompileError> = Vec::new();
        self.expand_nodes(&mut ast.nodes, &mut errors);
        if errors.len() == 0 {
            Ok(())
        } else {
            Err(errors)
        }
    }

    /// Walks the nodes once: a registered invocation is replaced by its
    /// expansion, an unknown one is reported and kept.
    fn expand_nodes(&self, nodes: &mut Vec<ASTNode>, errors: &mut Vec<CompileError>)
        ensures
            forall|j: int|
                0 <= j < final(nodes)@.len() ==> !(#[trigger] final(nodes)@[j]
                    matches ASTNode::MacroInvocation(inv) && spec_assoc(
                    self.spec_macros(),
                    inv.name@,
                ) is Some),
            final(errors)@.len() == old(errors)@.len() <==> (forall|j: int|
                0 <= j < final(nodes)@.len() ==> !spec_unknown_invocation(
                    #[trigger] final(nodes)@[j],
                    self.spec_macros(),
                )),
            final(errors)@.len() >= old(errors)@.len(),
    {
        let mut i: usize = 0;
        while i < nodes.len()
            invariant
                i <= nodes@.len(),
                forall|j: int|
                    0 <= j < i ==> !(#[trigger] nodes@[j] matches ASTNode::MacroInvocation(inv)
                        && spec_assoc(self.spec_macros(), inv.name@) is Some),
                errors@.len() == old(errors)@.len() <==> (forall|j: int|
                    0 <= j < i ==> !spec_unknown_invocation(
                        #[trigger] nodes@[j],
                        self.spec_macros(),
                    )),
                errors@.len() >= old(errors)@.len(),
            decreases nodes@.len() - i,
        {
            let is_known: bool = match &nodes[i] {
                ASTNode::MacroInvocation(invocation) => {
                    if assoc_contains(&self.macros, invocation.name.as_str()) {
                        true
                    } else {
                        let mut message = str_copy("Undefined macro: ");
                        message.append(invocation.name.as_str());
                        let error = CompileError::new(
                            ErrorKind::Reference,
                            message.as_str(),
                        ).with_span(invocation.span.duplicate());
                        errors.push(error);
                        i = i + 1;
                        continue ;
                    }
                },
                _ => {
                    i = i + 1;
                    continue ;
                },
            };
            if is_known {
                let ghost before = nodes@;
                let removed = nodes.remove(i);
                let mut expansion = match &removed {
                    ASTNode::MacroInvocation(invocation) => {
                        match self.lookup_and_expand(invocation) {
                            Ok(expanded) => expanded,
                            Err(error) => {
                                errors.push(error);
                                Vec::new()
                            },
                        }
                    },
                    _ => Vec::new(),
                };
                proof {
                    assert(expansion@.len() == 0);
                    assert forall|j: int| 0 <= j < i implies nodes@[j] == before[j] by {}
                }
                let ghost after_removal = nodes@;
                while expansion.len() > 0
                    invariant
                        expansion@.len() == 0,
                        nodes@ == after_removal,
                    decreases expansion@.len(),
                {
                    let node = expansion.remove(0);
                    nodes.insert(i, node);
                }
            }
        }
    }

    /// Expands one invocation of a registered macro. The bootstrap expander
    /// erases such invocations: the expansion is the empty node sequence.
    fn lookup_and_expand(&self, invocation: &MacroInvocation) -> (r: Result<
        Vec<ASTNode>,
        CompileError,
    >)
        ensures
            r matches Ok(nodes) && nodes@.len() == 0,
    {
        Ok(Vec::new())
    }
}

/// Validates a tree against a list of macro definitions: every invocation
/// must name a registered macro.
#[derive(Debug)]
pub struct MacroExpander {
    macro_definitions: Vec<MacroDefinition>,
}

/// Whether any definition in the list carries this name.
pub open spec fn spec_defines(defs: Seq<MacroDefinition>, name: Seq<char>) -> bool {
    exists|i: int| 0 <= i < defs.len() && defs[i].name@ == name
}

impl MacroExpander {
    /// The registered definitions, in registration order.
    pub closed spec fn spec_definitions(&self) -> Seq<MacroDefinition> {
        self.macro_definitions@
    }

    /// An empty validator.
    pub fn new() -> (r: MacroExpander)
        ensures
            r.spec_definitions().len() == 0,
    {
        MacroExpander { macro_definitions: Vec::new() }
    }

    /// Registers one more definition.
    pub fn register_macro(&mut self, definition: MacroDefinition)
        ensures
            final(self).spec_definitions() == old(self).spec_definitions().push(definition),
    {
        self.macro_definitions.push(definition);
    }

    /// Checks every top-level invocation against the registered definitions;
    /// the tree itself is left unchanged.
    pub fn expand(&self, ast: &mut AST) -> (r: Result<(), Vec<CompileError>>)
        ensures
            *final(ast) == *old(ast),
            r is Ok <==> (forall|j: int|
                0 <= j < final(ast).nodes@.len() ==> !(#[trigger] final(ast).nodes@[j]
                    matches ASTNode::MacroInvocation(inv) && !spec_defines(
                    self.spec_definitions(),
                    inv.name@,
                ))),
    {
        let mut errors: Vec<CompileError> = Vec::new();
        let mut i: usize = 0;
        while i < ast.nodes.len()
            invariant
                *ast == *old(ast),
                i <= ast.nodes@.len(),
                errors@.len() == 0 <==> (forall|j: int|
                    0 <= j < i ==> !(#[trigger] ast.nodes@[j] matches ASTNode::MacroInvocation(inv)
                        && !spec_defines(self.spec_definitions(), inv.name@))),
            decreases ast.nodes@.len() - i,
        {
            match &ast.nodes[i] {
                ASTNode::MacroInvocation(invocation) => {
                    if !self.defines(invocation.name.as_str()) {
                        let mut message = str_copy("Undefined macro: ");
                        message.append(invocation.name.as_str());
                        let error = CompileError::new(
                            ErrorKind::Reference,
                            message.as_str(),
                        ).with_span(invocation.span.duplicate());
                        errors.push(error);
                    }
                },
                _ => {},
            }
            i = i + 1;
        }
        if errors.len() == 0 {
            Ok(())
        } else {
            Err(errors)
        }
    }

    /// Whether a definition of this name is registered.
    fn defines(&self, name: &str) -> (r: bool)
        ensures
            r == spec_defines(self.spec_definitions(), name@),
    {
        let mut i: usize = 0;
        while i < self.macro_definitions.len()
            invariant
                i <= self.spec_definitions().len(),
                forall|j: int| 0 <= j < i ==> self.spec_definitions()[j].name@ != name@,
            decreases self.spec_definitions().len() - i,
        {
            if crate::strutil::str_eq(self.macro_definitions[i].name.as_str(), name) {
                return true;
            }
            i = i + 1;
        }
        false
    }
}

} // verus!
