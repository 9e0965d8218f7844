//! The abstract syntax tree the later compiler passes walk: declarations,
//! statements and expressions, plus the macro forms the expander consumes.

use vstd::prelude::*;

use crate::diagnostics::Span;

verus! {

/// A literal value in source code.
#[derive(Debug)]
pub enum Literal {
    Int(i64),
    Bool(bool),
    Str(String),
}

/// A binary operator.
#[derive(Clone, Copy, Debug, PartialEq, Eq, Structural)]
pub enum BinOp {
    Add,
    Sub,
    Mul,
    Div,
    Eq,
    NotEq,
    Less,
    LessEq,
    Greater,
    GreaterEq,
}

/// An expression.
#[derive(Debug)]
pub enum Expr {
    Literal(Literal),
    Identifier(String),
    Binary(Box<Expr>, BinOp, Box<Expr>),
}

/// One function parameter with its declared type name.
#[derive(Debug)]
pub struct Param {
    pub name: String,
    pub type_ref: String,
}

/// A function declaration.
#[derive(Debug)]
pub struct FunctionDecl {
    pub name: String,
    pub is_public: bool,
    pub doc_comment: Option<String>,
    pub params: Vec<Param>,
    pub return_type: String,
    pub body: Vec<ASTNode>,
}

/// A variable declaration.
#[derive(Debug)]
pub struct VariableDecl {
    pub name: String,
    pub is_public: bool,
    pub value: Expr,
}

/// A struct declaration.
#[derive(Debug)]
pub struct StructDecl {
    pub name: String,
    pub doc_comment: Option<String>,
}

/// An enum declaration.
#[derive(Debug)]
pub struct EnumDecl {
    pub name: String,
    pub doc_comment: Option<String>,
    pub variants: Vec<String>,
}

/// An interface declaration.
#[derive(Debug)]
pub struct InterfaceDecl {
    pub name: String,
    pub doc_comment: Option<String>,
}

/// A module with its member declarations.
#[derive(Debug)]
pub struct Module {
    pub name: String,
    pub doc_comment: Option<String>,
    pub body: Vec<ASTNode>,
}

/// A binary expression statement in operator-folding form.
#[derive(Debug)]
pub struct BinaryExpr {
    pub left: Expr,
    pub op: BinOp,
    pub right: Expr,
}

/// A macro definition: its name, its parameter names, and its body.
#[derive(Debug)]
pub struct MacroDefinition {
    pub name: String,
    pub params: Vec<String>,
    pub body: Vec<ASTNode>,
}

/// A macro invocation awaiting expansion.
#[derive(Debug)]
pub struct MacroInvocation {
    pub name: String,
    pub args: Vec<ASTNode>,
    pub span: Span,
}

/// One node of the tree.
#[derive(Debug)]
pub enum ASTNode {
    FunctionDecl(FunctionDecl),
    VariableDecl(VariableDecl),
    StructDecl(StructDecl),
    EnumDecl(EnumDecl),
    InterfaceDecl(InterfaceDecl),
    Module(Module),
    BinaryExpr(BinaryExpr),
    Literal(Literal),
    Expression(Expr),
    MacroInvocation(MacroInvocation),
    Loop { body: Vec<ASTNode> },
    For { init: Box<ASTNode>, condition: Expr, update: Expr, body: Vec<ASTNode> },
}

/// The whole tree of one compilation unit.
#[derive(Debug)]
pub struct AST {
    pub nodes: Vec<ASTNode>,
}

impl AST {
    /// A tree over the given top-level nodes.
    pub fn new(nodes: Vec<ASTNode>) -> (r: AST)
        ensures
            r.nodes == nodes,
    {
        AST { nodes }
    }
}

/// The structural size of an expression.
pub open spec fn spec_expr_size(e: Expr) -> nat
    decreases e,
{
    match e {
        Expr::Binary(left, _, right) => 1 + spec_expr_size(*left) + spec_expr_size(*right),
        _ => 1,
    }
}

/// The structural size of one node.
pub open spec fn spec_node_size(n: ASTNode) -> nat
    decreases n,
{
    match n {
        ASTNode::FunctionDecl(f) => 1 + spec_node_list_size(f.body@),
        ASTNode::VariableDecl(v) => 1 + spec_expr_size(v.value),
        ASTNode::Module(m) => 1 + spec_node_list_size(m.body@),
        ASTNode::BinaryExpr(b) => 1 + spec_expr_size(b.left) + spec_expr_size(b.right),
        ASTNode::Expression(e) => 1 + spec_expr_size(e),
        ASTNode::MacroInvocation(inv) => 1 + spec_node_list_size(inv.args@),
        ASTNode::Loop { body } => 1 + spec_node_list_size(body@),
        ASTNode::For { init, condition, update, body } => 1 + spec_node_size(*init)
            + spec_expr_size(condition) + spec_expr_size(update) + spec_node_list_size(body@),
        _ => 1,
    }
}

/// The summed size of a list of nodes.
pub open spec fn spec_node_list_size(nodes: Seq<ASTNode>) -> nat
    decreases nodes,
{
    if nodes.len() == 0 {
        0
    } else {
        spec_node_size(nodes[0]) + spec_node_list_size(nodes.drop_first())
    }
}

/// Each element of a list weighs no more than the whole list.
pub proof fn lemma_node_list_size_ge(nodes: Seq<ASTNode>, i: int)
    requires
        0 <= i < nodes.len(),
    ensures
        spec_node_size(nodes[i]) <= spec_node_list_size(nodes),
    decreases i,
{
    if i > 0 {
        lemma_node_list_size_ge(nodes.drop_first(), i - 1);
    }
}

/// Every node weighs at least one.
pub proof fn lemma_node_size_pos(n: ASTNode)
    ensures
        spec_node_size(n) >= 1,
{
}

/// Replacing one node changes the summed size by the difference of the two
/// nodes' sizes.
pub proof fn lemma_node_list_size_update(nodes: Seq<ASTNode>, i: int, n: ASTNode)
    requires
        0 <= i < nodes.len(),
    ensures
        spec_node_list_size(nodes.update(i, n)) == spec_node_list_size(nodes) - spec_node_size(
            nodes[i],
        ) + spec_node_size(n),
    decreases i,
{
    if i == 0 {
        assert(nodes.update(0, n)[0] == n);
        assert(nodes.update(0, n).drop_first() =~= nodes.drop_first());
    } else {
        assert(nodes.update(i, n)[0] == nodes[0]);
        assert(nodes.update(i, n).drop_first() =~= nodes.drop_first().update(i - 1, n));
        lemma_node_list_size_update(nodes.drop_first(), i - 1, n);
    }
}

/// Removing one node removes exactly its size from the sum.
pub proof fn lemma_node_list_size_remove(nodes: Seq<ASTNode>, i: int)
    requires
        0 <= i < nodes.len(),
    ensures
        spec_node_list_size(nodes.remove(i)) == spec_node_list_size(nodes) - spec_node_size(
            nodes[i],
        ),
    decreases i,
{
    if i == 0 {
        assert(nodes.remove(0) =~= nodes.drop_first());
    } else {
        assert(nodes.remove(i)[0] == nodes[0]);
        assert(nodes.remove(i).drop_first() =~= nodes.drop_first().remove(i - 1));
        lemma_node_list_size_remove(nodes.drop_first(), i - 1);
    }
}

} // verus!
