//! The optimization passes of the bootstrap compiler: constant folding and
//! dead-code elimination do real work; common-subexpression elimination and
//! inline expansion are registered but currently rewrite nothing. Every pass
//! that reports a change strictly shrinks the tree, which is what lets the
//! fixed-point driver terminate.

use vstd::prelude::*;

use crate::ast::lemma_node_list_size_remove;
use crate::ast::lemma_node_list_size_update;
use crate::ast::spec_expr_size;
use crate::ast::spec_node_list_size;
use crate::ast::spec_node_size;
use crate::ast::ASTNode;
use crate::ast::BinOp;
use crate::ast::Expr;
use crate::ast::Literal;
use crate::ast::AST;
use crate::strutil::str_eq;

verus! {

/// A failure inside an optimization pass.
#[derive(Clone, Debug)]
pub enum OptimizationError {
    InvalidOperation(String),
    TypeMismatch(String),
    Other(String),
}

/// One rewriting pass over the tree. A pass that reports a change has made
/// the tree strictly smaller; one that reports none has left it untouched.
pub trait Optimization {
    /// The pass's name, for reports.
    fn name(&self) -> &'static str;

    /// Runs the pass once over the whole tree.
    fn run(&self, ast: &mut AST) -> (r: Result<bool, OptimizationError>)
        ensures
            r == Ok::<bool, OptimizationError>(true) ==> spec_node_list_size(final(ast).nodes@)
                < spec_node_list_size(old(ast).nodes@),
            r == Ok::<bool, OptimizationError>(false) ==> final(ast).nodes@ == old(
                ast,
            ).nodes@,
            spec_node_list_size(final(ast).nodes@) <= spec_node_list_size(old(ast).nodes@),
    ;
}

/// The result of folding one binary operation over two literals, when both
/// are of foldable shape and the operation neither overflows a 64-bit result
/// nor divides with a sign the backend would round differently.
pub open spec fn spec_eval(left: Literal, right: Literal, op: BinOp) -> Option<Literal> {
    match (left, right) {
        (Literal::Int(a), Literal::Int(b)) => match op {
            BinOp::Add => spec_int_result(a + b),
            BinOp::Sub => spec_int_result(a - b),
            BinOp::Mul => spec_int_result(a * b),
            BinOp::Div => if b > 0 && a >= 0 {
                spec_int_result(a as int / b as int)
            } else {
                None
            },
            BinOp::Eq => Some(Literal::Bool(a == b)),
            BinOp::NotEq => Some(Literal::Bool(a != b)),
            BinOp::Less => Some(Literal::Bool(a < b)),
            BinOp::LessEq => Some(Literal::Bool(a <= b)),
            BinOp::Greater => Some(Literal::Bool(a > b)),
            BinOp::GreaterEq => Some(Literal::Bool(a >= b)),
        },
        (Literal::Bool(x), Literal::Bool(y)) => match op {
            BinOp::Eq => Some(Literal::Bool(x == y)),
            BinOp::NotEq => Some(Literal::Bool(x != y)),
            _ => None,
        },
        _ => None,
    }
}

/// An integer fold result, if it fits a 64-bit integer.
pub open spec fn spec_int_result(v: int) -> Option<Literal> {
    if i64::MIN <= v <= i64::MAX {
        Some(Literal::Int(v as i64))
    } else {
        None
    }
}

/// Folds one binary operation over two literals.
fn evaluate_constant_expr(left: &Literal, right: &Literal, op: &BinOp) -> (r: Option<Literal>)
    ensures
        r == spec_eval(*left, *right, *op),
{
    match (left, right) {
        (Literal::Int(a), Literal::Int(b)) => {
            let a: i64 = *a;
            let b: i64 = *b;
            match op {
                BinOp::Add => int_result(a as i128 + b as i128),
                BinOp::Sub => int_result(a as i128 - b as i128),
                BinOp::Mul => {
                    let wa: i128 = a as i128;
                    let wb: i128 = b as i128;
                    proof {
                        assert(wa * wb <= i128::MAX && wa * wb >= i128::MIN) by (nonlinear_arith)
                            requires
                                -0x8000_0000_0000_0000i128 <= wa <= 0x7fff_ffff_ffff_ffffi128,
                                -0x8000_0000_0000_0000i128 <= wb <= 0x7fff_ffff_ffff_ffffi128,
                        ;
                    }
                    int_result(wa * wb)
                },
                BinOp::Div => {
                    if b > 0 && a >= 0 {
                        int_result(a as i128 / b as i128)
                    } else {
                        None
                    }
                },
                BinOp::Eq => Some(Literal::Bool(a == b)),
                BinOp::NotEq => Some(Literal::Bool(a != b)),
                BinOp::Less => Some(Literal::Bool(a < b)),
                BinOp::LessEq => Some(Literal::Bool(a <= b)),
                BinOp::Greater => Some(Literal::Bool(a > b)),
                BinOp::GreaterEq => Some(Literal::Bool(a >= b)),
            }
        },
        (Literal::Bool(x), Literal::Bool(y)) => match op {
            BinOp::Eq => Some(Literal::Bool(*x == *y)),
            BinOp::NotEq => Some(Literal::Bool(*x != *y)),
            _ => None,
        },
        _ => None,
    }
}

/// Narrows a wide fold result back to 64 bits, if it fits.
fn int_result(v: i128) -> (r: Option<Literal>)
    ensures
        r == spec_int_result(v as int),
{
    if v >= i64::MIN as i128 && v <= i64::MAX as i128 {
        Some(Literal::Int(v as i64))
    } else {
        None
    }
}

/// Replaces binary operations over two literals by their value.
#[derive(Debug)]
pub struct ConstantFolding;

impl Optimization for ConstantFolding {
    fn name(&self) -> &'static str {
        "ConstantFolding"
    }

    #[verifier::loop_isolation(false)]
    fn run(&self, ast: &mut AST) -> (r: Result<bool, OptimizationError>) {
        let mut changed = false;
        let ghost orig = ast.nodes@;
        let mut i: usize = 0;
        while i < ast.nodes.len()
            invariant
                i <= ast.nodes@.len(),
                ast.nodes@.len() == orig.len(),
                !changed ==> ast.nodes@ == orig,
                changed ==> spec_node_list_size(ast.nodes@) < spec_node_list_size(orig),
            decreases ast.nodes@.len() - i,
        {
            let folded: Option<Literal> = match &ast.nodes[i] {
                ASTNode::BinaryExpr(b) => {
                    match (&b.left, &b.right) {
                        (Expr::Literal(l), Expr::Literal(r)) => evaluate_constant_expr(
                            l,
                            r,
                            &b.op,
                        ),
                        _ => None,
                    }
                },
                _ => None,
            };
            match folded {
                Some(result) => {
                    proof {
                        lemma_node_list_size_update(
                            ast.nodes@,
                            i as int,
                            ASTNode::Literal(result),
                        );
                    }
                    ast.nodes[i] = ASTNode::Literal(result);
                    changed = true;
                },
                None => {},
            }
            i = i + 1;
        }
        Ok(changed)
    }
}

/// Removes private declarations that nothing references.
#[derive(Debug)]
pub struct DeadCodeElimination;

impl Optimization for DeadCodeElimination {
    fn name(&self) -> &'static str {
        "DeadCodeElimination"
    }

    #[verifier::loop_isolation(false)]
    fn run(&self, ast: &mut AST) -> (r: Result<bool, OptimizationError>) {
        let used_symbols = collect_used_symbols(ast);
        let mut changed = false;
        let ghost orig = ast.nodes@;
        let mut i: usize = 0;
        while i < ast.nodes.len()
            invariant
                i <= ast.nodes@.len(),
                !changed ==> ast.nodes@ == orig,
                changed ==> spec_node_list_size(ast.nodes@) < spec_node_list_size(orig),
            decreases ast.nodes@.len() - i,
        {
            let keep: bool = match &ast.nodes[i] {
                ASTNode::FunctionDecl(f) => f.is_public || names_contain(
                    &used_symbols,
                    f.name.as_str(),
                ),
                ASTNode::VariableDecl(v) => v.is_public || names_contain(
                    &used_symbols,
                    v.name.as_str(),
                ),
                _ => true,
            };
            if keep {
                i = i + 1;
            } else {
                proof {
                    lemma_node_list_size_remove(ast.nodes@, i as int);
                    crate::ast::lemma_node_size_pos(ast.nodes@[i as int]);
                }
                ast.nodes.remove(i);
                changed = true;
            }
        }
        Ok(changed)
    }
}

/// Whether the list holds this name.
fn names_contain(names: &Vec<String>, name: &str) -> (r: bool)
{
    let mut i: usize = 0;
    while i < names.len()
        invariant
            i <= names@.len(),
        decreases names@.len() - i,
    {
        if str_eq(names[i].as_str(), name) {
            return true;
        }
        i = i + 1;
    }
    false
}

/// Gathers every identifier an expression mentions.
fn collect_expr_symbols(expr: &Expr, out: &mut Vec<String>)
    decreases spec_expr_size(*expr),
{
    match expr {
        Expr::Identifier(name) => {
            out.push(crate::strutil::str_copy(name.as_str()));
        },
        Expr::Binary(left, _, right) => {
            collect_expr_symbols(left, out);
            collect_expr_symbols(right, out);
        },
        _ => {},
    }
}

/// Gathers every identifier referenced anywhere in the tree.
fn collect_used_symbols(ast: &AST) -> (r: Vec<String>) {
    let mut out: Vec<String> = Vec::new();
    let mut i: usize = 0;
    while i < ast.nodes.len()
        invariant
            i <= ast.nodes@.len(),
        decreases ast.nodes@.len() - i,
    {
        proof {
            crate::ast::lemma_node_list_size_ge(ast.nodes@, i as int);
        }
        collect_node_symbols(&ast.nodes[i], &mut out);
        i = i + 1;
    }
    out
}

/// Gathers every identifier one node references.
fn collect_node_symbols(node: &ASTNode, out: &mut Vec<String>)
    decreases spec_node_size(*node), 0nat,
{
    match node {
        ASTNode::VariableDecl(v) => {
            collect_expr_symbols(&v.value, out);
        },
        ASTNode::BinaryExpr(b) => {
            collect_expr_symbols(&b.left, out);
            collect_expr_symbols(&b.right, out);
        },
        ASTNode::Expression(e) => {
            collect_expr_symbols(e, out);
        },
        ASTNode::FunctionDecl(f) => {
            collect_node_list_symbols(&f.body, out);
        },
        ASTNode::Module(m) => {
            collect_node_list_symbols(&m.body, out);
        },
        ASTNode::Loop { body } => {
            collect_node_list_symbols(body, out);
        },
        ASTNode::For { init, condition, update, body } => {
            collect_node_symbols(init, out);
            collect_expr_symbols(condition, out);
            collect_expr_symbols(update, out);
            collect_node_list_symbols(body, out);
        },
        ASTNode::MacroInvocation(inv) => {
            collect_node_list_symbols(&inv.args, out);
        },
        _ => {},
    }
}

/// Gathers every identifier a list of nodes references.
fn collect_node_list_symbols(nodes: &Vec<ASTNode>, out: &mut Vec<String>)
    decreases spec_node_list_size(nodes@), 1nat,
{
    let mut i: usize = 0;
    while i < nodes.len()
        invariant
            i <= nodes@.len(),
        decreases nodes@.len() - i,
    {
        proof {
            crate::ast::lemma_node_list_size_ge(nodes@, i as int);
        }
        collect_node_symbols(&nodes[i], out);
        i = i + 1;
    }
}

/// Rewrites repeated subexpressions; this pass currently rewrites nothing.
#[derive(Debug)]
pub struct CommonSubexpressionElimination;

impl Optimization for CommonSubexpressionElimination {
    fn name(&self) -> &'static str {
        "CommonSubexpressionElimination"
    }

    fn run(&self, ast: &mut AST) -> (r: Result<bool, OptimizationError>) {
        Ok(false)
    }
}

/// Expands small functions at their call sites; this pass currently rewrites
/// nothing.
#[derive(Debug)]
pub struct InlineExpansion;

impl Optimization for InlineExpansion {
    fn name(&self) -> &'static str {
        "InlineExpansion"
    }

    fn run(&self, ast: &mut AST) -> (r: Result<bool, OptimizationError>) {
        Ok(false)
    }
}

/// Which pass to run; the registered order is the running order.
#[derive(Clone, Copy, Debug, PartialEq, Eq, Structural)]
pub enum OptimizationKind {
    ConstantFolding,
    DeadCodeElimination,
    CommonSubexpressionElimination,
    InlineExpansion,
}

/// Runs one pass by kind.
fn apply_optimization(kind: &OptimizationKind, ast: &mut AST) -> (r: Result<
    bool,
    OptimizationError,
>)
    ensures
        r == Ok::<bool, OptimizationError>(true) ==> spec_node_list_size(final(ast).nodes@)
            < spec_node_list_size(old(ast).nodes@),
        r == Ok::<bool, OptimizationError>(false) ==> final(ast).nodes@ == old(ast).nodes@,
        spec_node_list_size(final(ast).nodes@) <= spec_node_list_size(old(ast).nodes@),
{
    match kind {
        OptimizationKind::ConstantFolding => (ConstantFolding).run(ast),
        OptimizationKind::DeadCodeElimination => (DeadCodeElimination).run(ast),
        OptimizationKind::CommonSubexpressionElimination => (CommonSubexpressionElimination).run(
            ast,
        ),
        OptimizationKind::InlineExpansion => (InlineExpansion).run(ast),
    }
}

/// Drives the registered passes to a fixed point.
#[derive(Debug)]
pub struct Optimizer {
    optimizations: Vec<OptimizationKind>,
}

impl Optimizer {
    /// The registered passes, in running order.
    pub closed spec fn spec_passes(&self) -> Seq<OptimizationKind> {
        self.optimizations@
    }

    /// An optimizer with the four standard passes registered.
    pub fn new() -> (r: Optimizer)
        ensures
            r.spec_passes().len() == 4,
    {
        let mut optimizer = Optimizer { optimizations: Vec::new() };
        optimizer.register(OptimizationKind::ConstantFolding);
        optimizer.register(OptimizationKind::DeadCodeElimination);
        optimizer.register(OptimizationKind::CommonSubexpressionElimination);
        optimizer.register(OptimizationKind::InlineExpansion);
        optimizer
    }

    /// Registers one more pass at the end of the running order.
    pub fn register(&mut self, optimization: OptimizationKind)
        ensures
            final(self).spec_passes() == old(self).spec_passes().push(optimization),
    {
        self.optimizations.push(optimization);
    }

    /// Runs every registered pass, again and again, until one full round
    /// changes nothing. The tree never grows.
    #[verifier::loop_isolation(false)]
    pub fn optimize(&self, ast: &mut AST) -> (r: Result<(), OptimizationError>)
        ensures
            spec_node_list_size(final(ast).nodes@) <= spec_node_list_size(old(ast).nodes@),
    {
        let ghost initial = ast.nodes@;
        loop
            invariant
                old(ast).nodes@ == initial,
                spec_node_list_size(ast.nodes@) <= spec_node_list_size(initial),
            decreases spec_node_list_size(ast.nodes@),
        {
            let mut changed = false;
            let ghost round_start = spec_node_list_size(ast.nodes@);
            let mut k: usize = 0;
            while k < self.optimizations.len()
                invariant
                    old(ast).nodes@ == initial,
                    k <= self.optimizations@.len(),
                    round_start <= spec_node_list_size(initial),
                    spec_node_list_size(ast.nodes@) <= round_start,
                    changed ==> spec_node_list_size(ast.nodes@) < round_start,
                decreases self.optimizations@.len() - k,
            {
                match apply_optimization(&self.optimizations[k], ast) {
                    Ok(true) => {
                        changed = true;
                    },
                    Ok(false) => {},
                    Err(error) => {
                        return Err(error);
                    },
                }
                k = k + 1;
            }
            if !changed {
                return Ok(());
            }
        }
    }
}

} // verus!
