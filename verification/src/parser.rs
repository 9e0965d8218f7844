//! A recursive-descent parser over the pull-based tokenizer: it builds the
//! tree of declarations, loops and expressions the later passes walk. It
//! never gives up on malformed input: an unexpected token is read as an
//! identifier, so a parse always consumes the whole stream.

use vstd::prelude::*;
use vstd::string::StrSliceExecFns;

use crate::ast::ASTNode;
use crate::ast::BinOp;
use crate::ast::Expr;
use crate::ast::FunctionDecl;
use crate::ast::Literal;
use crate::ast::Param;
use crate::ast::StructDecl;
use crate::ast::VariableDecl;
use crate::ast::AST;
use crate::strutil::str_copy;
use crate::strutil::str_eq;
use crate::token_stream::Lexer;
use crate::token_stream::Token;

verus! {

/// The parser: one token of lookahead over the tokenizer.
#[derive(Debug)]
pub struct Parser {
    lexer: Lexer,
    current_token: Option<Token>,
}

impl Parser {
    /// How much input is left: the unread characters plus the lookahead.
    pub closed spec fn remaining(&self) -> nat {
        self.lexer.spec_remaining() + if self.current_token is Some {
            1nat
        } else {
            0nat
        }
    }

    /// The tokenizer alone is sound.
    pub closed spec fn lexer_ok(&self) -> bool {
        self.lexer.wf()
    }

    /// The tokenizer is sound and an empty lookahead means exhausted input.
    pub closed spec fn wf(&self) -> bool {
        self.lexer.wf() && (self.current_token is None ==> self.lexer.spec_remaining() == 0)
    }

    /// A parser over the given tokenizer, primed with one token.
    pub fn new(lexer: Lexer) -> (r: Parser)
        requires
            lexer.wf(),
        ensures
            r.wf(),
    {
        let mut parser = Parser { lexer, current_token: None };
        parser.bump();
        parser
    }

    /// Moves the lookahead one token ahead, dropping the old one.
    fn bump(&mut self)
        requires
            old(self).lexer_ok(),
        ensures
            final(self).wf(),
            old(self).current_token is Some ==> final(self).remaining() < old(self).remaining(),
            final(self).remaining() <= old(self).remaining(),
    {
        let next = self.lexer.next_token();
        self.current_token = next;
    }

    /// Consumes the lookahead when it is exactly this symbol.
    fn eat_symbol(&mut self, symbol: &str) -> (r: bool)
        requires
            old(self).wf(),
        ensures
            final(self).wf(),
            final(self).remaining() <= old(self).remaining(),
            r ==> final(self).remaining() < old(self).remaining(),
            !r ==> final(self).current_token == old(self).current_token && final(self).remaining()
                == old(self).remaining(),
    {
        let matches_symbol = match &self.current_token {
            Some(Token::Symbol(text)) => str_eq(text.as_str(), symbol),
            _ => false,
        };
        if matches_symbol {
            self.bump();
            true
        } else {
            false
        }
    }

    /// Consumes an identifier lookahead and returns its text; anything else
    /// stays put and yields an empty name.
    fn eat_ident(&mut self) -> (r: String)
        requires
            old(self).wf(),
        ensures
            final(self).wf(),
            final(self).remaining() <= old(self).remaining(),
    {
        let name = match &self.current_token {
            Some(Token::Ident(text)) => Some(str_copy(text.as_str())),
            _ => None,
        };
        match name {
            Some(name) => {
                self.bump();
                name
            },
            None => String::new(),
        }
    }

    /// Parses the whole stream into a tree.
    pub fn parse(&mut self) -> (r: AST)
        requires
            old(self).wf(),
        ensures
            final(self).wf(),
            final(self).remaining() == 0,
    {
        let mut nodes: Vec<ASTNode> = Vec::new();
        loop
            invariant
                self.wf(),
            ensures
                self.wf() && self.current_token is None,
            decreases self.remaining(),
        {
            if self.current_token.is_none() {
                break ;
            }
            let node = self.parse_statement();
            nodes.push(node);
        }
        AST::new(nodes)
    }

    /// Parses one statement: a function, struct, loop, for or let
    /// declaration, or a bare expression.
    fn parse_statement(&mut self) -> (r: ASTNode)
        requires
            old(self).wf(),
            old(self).current_token is Some,
        ensures
            final(self).wf(),
            final(self).remaining() < old(self).remaining(),
        decreases old(self).remaining(), 3nat,
    {
        let keyword: Option<String> = match &self.current_token {
            Some(Token::Keyword(word)) => Some(str_copy(word.as_str())),
            _ => None,
        };
        match keyword {
            Some(word) => {
                if str_eq(word.as_str(), "fn") {
                    self.parse_function()
                } else if str_eq(word.as_str(), "struct") {
                    self.parse_struct()
                } else if str_eq(word.as_str(), "loop") {
                    self.parse_loop()
                } else if str_eq(word.as_str(), "for") {
                    self.parse_for()
                } else if str_eq(word.as_str(), "let") {
                    self.parse_variable_decl()
                } else {
                    ASTNode::Expression(self.parse_expression())
                }
            },
            None => ASTNode::Expression(self.parse_expression()),
        }
    }

    /// Parses `fn name(params) -> type { body }`.
    fn parse_function(&mut self) -> (r: ASTNode)
        requires
            old(self).wf(),
            old(self).current_token is Some,
        ensures
            final(self).wf(),
            final(self).remaining() < old(self).remaining(),
        decreases old(self).remaining(), 2nat,
    {
        self.bump();
        let ghost bound = self.remaining();
        let name = self.eat_ident();
        let mut params: Vec<Param> = Vec::new();
        if self.eat_symbol("(") {
            loop
                invariant
                    self.wf(),
                    self.remaining() <= bound,
                decreases self.remaining(),
            {
                let param_name = match &self.current_token {
                    Some(Token::Ident(text)) => str_copy(text.as_str()),
                    _ => {
                        break ;
                    },
                };
                self.bump();
                let mut type_ref = String::new();
                if self.eat_symbol(":") {
                    type_ref = self.eat_ident();
                }
                params.push(Param { name: param_name, type_ref });
                if !self.eat_symbol(",") {
                    break ;
                }
            }
            self.eat_symbol(")");
        }
        let mut return_type = String::new();
        if self.eat_symbol("-") {
            self.eat_symbol(">");
            return_type = self.eat_ident();
        }
        let body = self.parse_block();
        ASTNode::FunctionDecl(
            FunctionDecl {
                name,
                is_public: false,
                doc_comment: None,
                params,
                return_type,
                body,
            },
        )
    }

    /// Parses `struct name`, skipping any braced field block.
    fn parse_struct(&mut self) -> (r: ASTNode)
        requires
            old(self).wf(),
            old(self).current_token is Some,
        ensures
            final(self).wf(),
            final(self).remaining() < old(self).remaining(),
        decreases old(self).remaining(), 2nat,
    {
        self.bump();
        let name = self.eat_ident();
        let _fields = self.parse_block();
        ASTNode::StructDecl(StructDecl { name, doc_comment: None })
    }

    /// Parses `loop { body }`.
    fn parse_loop(&mut self) -> (r: ASTNode)
        requires
            old(self).wf(),
            old(self).current_token is Some,
        ensures
            final(self).wf(),
            final(self).remaining() < old(self).remaining(),
        decreases old(self).remaining(), 2nat,
    {
        self.bump();
        let body = self.parse_block();
        ASTNode::Loop { body }
    }

    /// Parses `for init; condition; update { body }`.
    fn parse_for(&mut self) -> (r: ASTNode)
        requires
            old(self).wf(),
            old(self).current_token is Some,
        ensures
            final(self).wf(),
            final(self).remaining() < old(self).remaining(),
        decreases old(self).remaining(), 2nat,
    {
        self.bump();
        let init: ASTNode = match &self.current_token {
            Some(_) => self.parse_statement(),
            None => ASTNode::Expression(Expr::Literal(Literal::Bool(true))),
        };
        self.eat_symbol(";");
        let condition = self.parse_expression_or_true();
        self.eat_symbol(";");
        let update = self.parse_expression_or_true();
        let body = self.parse_block();
        ASTNode::For { init: Box::new(init), condition, update, body }
    }

    /// Parses `let name = value;`.
    fn parse_variable_decl(&mut self) -> (r: ASTNode)
        requires
            old(self).wf(),
            old(self).current_token is Some,
        ensures
            final(self).wf(),
            final(self).remaining() < old(self).remaining(),
        decreases old(self).remaining(), 2nat,
    {
        self.bump();
        let name = self.eat_ident();
        let value: Expr = if self.eat_symbol("=") {
            self.parse_expression_or_true()
        } else {
            Expr::Literal(Literal::Bool(true))
        };
        self.eat_symbol(";");
        ASTNode::VariableDecl(VariableDecl { name, is_public: false, value })
    }

    /// Parses `{ statement* }`; a missing opening brace yields no body.
    fn parse_block(&mut self) -> (r: Vec<ASTNode>)
        requires
            old(self).wf(),
        ensures
            final(self).wf(),
            final(self).remaining() <= old(self).remaining(),
        decreases old(self).remaining(), 1nat,
    {
        let mut nodes: Vec<ASTNode> = Vec::new();
        if !self.eat_symbol("{") {
            return nodes;
        }
        let ghost bound = self.remaining();
        loop
            invariant
                self.wf(),
                self.remaining() <= bound,
                bound < old(self).remaining(),
            decreases self.remaining(),
        {
            if self.current_token.is_none() {
                break ;
            }
            if self.eat_symbol("}") {
                break ;
            }
            let node = self.parse_statement();
            nodes.push(node);
        }
        nodes
    }

    /// Parses an expression, or reads `true` when none is there.
    fn parse_expression_or_true(&mut self) -> (r: Expr)
        requires
            old(self).wf(),
        ensures
            final(self).wf(),
            final(self).remaining() <= old(self).remaining(),
        decreases old(self).remaining(), 1nat,
    {
        match &self.current_token {
            Some(_) => self.parse_expression(),
            None => Expr::Literal(Literal::Bool(true)),
        }
    }

    /// Parses a primary expression, optionally followed by one binary
    /// operator and a second primary.
    fn parse_expression(&mut self) -> (r: Expr)
        requires
            old(self).wf(),
            old(self).current_token is Some,
        ensures
            final(self).wf(),
            final(self).remaining() < old(self).remaining(),
        decreases old(self).remaining(), 0nat,
    {
        let left = self.parse_primary();
        let op: Option<BinOp> = match &self.current_token {
            Some(Token::Symbol(text)) => {
                if str_eq(text.as_str(), "+") {
                    Some(BinOp::Add)
                } else if str_eq(text.as_str(), "-") {
                    Some(BinOp::Sub)
                } else if str_eq(text.as_str(), "*") {
                    Some(BinOp::Mul)
                } else if str_eq(text.as_str(), "/") {
                    Some(BinOp::Div)
                } else if str_eq(text.as_str(), "<") {
                    Some(BinOp::Less)
                } else if str_eq(text.as_str(), ">") {
                    Some(BinOp::Greater)
                } else {
                    None
                }
            },
            _ => None,
        };
        match op {
            Some(op) => {
                self.bump();
                let right: Expr = match &self.current_token {
                    Some(_) => self.parse_primary(),
                    None => Expr::Literal(Literal::Bool(true)),
                };
                Expr::Binary(Box::new(left), op, Box::new(right))
            },
            None => left,
        }
    }

    /// Parses one token as a literal or identifier.
    fn parse_primary(&mut self) -> (r: Expr)
        requires
            old(self).wf(),
            old(self).current_token is Some,
        ensures
            final(self).wf(),
            final(self).remaining() < old(self).remaining(),
    {
        let expr = match &self.current_token {
            Some(Token::Number(text)) => Expr::Literal(Literal::Int(parse_i64(text.as_str()))),
            Some(Token::Keyword(word)) => {
                if str_eq(word.as_str(), "true") {
                    Expr::Literal(Literal::Bool(true))
                } else if str_eq(word.as_str(), "false") {
                    Expr::Literal(Literal::Bool(false))
                } else {
                    Expr::Identifier(str_copy(word.as_str()))
                }
            },
            Some(Token::Ident(text)) => Expr::Identifier(str_copy(text.as_str())),
            Some(Token::Symbol(text)) => Expr::Identifier(str_copy(text.as_str())),
            None => Expr::Literal(Literal::Bool(true)),
        };
        self.bump();
        expr
    }
}

/// Reads a decimal number, saturating at the 64-bit maximum.
fn parse_i64(s: &str) -> (r: i64) {
    let len: usize = s.unicode_len();
    let mut value: i64 = 0;
    let mut i: usize = 0;
    while i < len
        invariant
            i <= len,
            len == s@.len(),
            value >= 0,
        decreases len - i,
    {
        let c = s.get_char(i);
        if c >= '0' && c <= '9' {
            let d: i64 = (c as u8 - 48) as i64;
            if value > (i64::MAX - d) / 10 {
                value = i64::MAX;
            } else {
                proof {
                    assert(value * 10 + d <= i64::MAX) by (nonlinear_arith)
                        requires
                            0 <= value <= (i64::MAX - d) / 10,
                            0 <= d <= 9,
                    ;
                    assert(value * 10 >= 0) by (nonlinear_arith)
                        requires
                            value >= 0,
                    ;
                }
                value = value * 10 + d;
            }
        }
        i = i + 1;
    }
    value
}

} // verus!
