use safelang::ast::ASTNode;
use safelang::ast::BinOp;
use safelang::ast::BinaryExpr;
use safelang::ast::Expr;
use safelang::ast::Literal;
use safelang::ast::MacroDefinition;
use safelang::ast::MacroInvocation;
use safelang::ast::VariableDecl;
use safelang::ast::AST;
use safelang::csv::CsvParser;
use safelang::diagnostics::SourceLocation;
use safelang::diagnostics::Span;
use safelang::docgen::DocConfig;
use safelang::docgen::DocGenerator;
use safelang::docgen::DocItemKind;
use safelang::macro_system::MacroExpander;
use safelang::macro_system::MacroSystem;
use safelang::optimize::Optimizer;
use safelang::parser::Parser;
use safelang::token_stream::Lexer;

fn span_here() -> Span {
    Span {
        start: SourceLocation {
            file: "main.sl".to_string(),
            line: 1,
            column: 1,
        },
        end: SourceLocation {
            file: "main.sl".to_string(),
            line: 1,
            column: 2,
        },
    }
}

fn invocation(name: &str) -> ASTNode {
    ASTNode::MacroInvocation(MacroInvocation {
        name: name.to_string(),
        args: Vec::new(),
        span: span_here(),
    })
}

fn definition(name: &str) -> MacroDefinition {
    MacroDefinition {
        name: name.to_string(),
        params: Vec::new(),
        body: Vec::new(),
    }
}

#[test]
fn test_macro_system_expands_known_and_reports_unknown() {
    let mut system = MacroSystem::new();
    system.register_macro("log".to_string(), definition("log"));
    let mut ast = AST::new(vec![
        invocation("log"),
        ASTNode::Literal(Literal::Int(1)),
        invocation("mystery"),
    ]);
    let errors = system.expand_macros(&mut ast).unwrap_err();
    assert_eq!(errors.len(), 1);
    assert_eq!(errors[0].message, "Undefined macro: mystery");
    // the registered invocation was erased, the unknown one kept
    assert_eq!(ast.nodes.len(), 2);

    let mut clean = AST::new(vec![invocation("log")]);
    assert!(system.expand_macros(&mut clean).is_ok());
    assert_eq!(clean.nodes.len(), 0);
}

#[test]
fn test_macro_expander_validates() {
    let mut expander = MacroExpander::new();
    expander.register_macro(definition("assert_eq_sl"));
    let mut ok_ast = AST::new(vec![invocation("assert_eq_sl")]);
    assert!(expander.expand(&mut ok_ast).is_ok());
    assert_eq!(ok_ast.nodes.len(), 1);
    let mut bad_ast = AST::new(vec![invocation("unknown_macro")]);
    let errors = bad_ast_errors(&expander, &mut bad_ast);
    assert_eq!(errors.len(), 1);
}

fn bad_ast_errors(
    expander: &MacroExpander,
    ast: &mut AST,
) -> Vec<safelang::diagnostics::CompileError> {
    expander.expand(ast).unwrap_err()
}

#[test]
fn test_constant_folding_and_dce() {
    let optimizer = Optimizer::new();
    let mut ast = AST::new(vec![
        ASTNode::BinaryExpr(BinaryExpr {
            left: Expr::Literal(Literal::Int(2)),
            op: BinOp::Add,
            right: Expr::Literal(Literal::Int(3)),
        }),
        ASTNode::VariableDecl(VariableDecl {
            name: "unused".to_string(),
            is_public: false,
            value: Expr::Literal(Literal::Int(9)),
        }),
        ASTNode::VariableDecl(VariableDecl {
            name: "kept".to_string(),
            is_public: true,
            value: Expr::Identifier("used_name".to_string()),
        }),
    ]);
    optimizer.optimize(&mut ast).unwrap();
    assert_eq!(ast.nodes.len(), 2);
    match &ast.nodes[0] {
        ASTNode::Literal(Literal::Int(v)) => assert_eq!(*v, 5),
        other => panic!("expected a folded literal, got {:?}", other),
    }
    match &ast.nodes[1] {
        ASTNode::VariableDecl(v) => assert_eq!(v.name, "kept"),
        other => panic!("expected the public declaration, got {:?}", other),
    }
}

#[test]
fn test_folding_comparisons_and_overflow() {
    let optimizer = Optimizer::new();
    let mut cmp = AST::new(vec![ASTNode::BinaryExpr(BinaryExpr {
        left: Expr::Literal(Literal::Int(2)),
        op: BinOp::Less,
        right: Expr::Literal(Literal::Int(3)),
    })]);
    optimizer.optimize(&mut cmp).unwrap();
    match &cmp.nodes[0] {
        ASTNode::Literal(Literal::Bool(b)) => assert!(*b),
        other => panic!("expected a folded boolean, got {:?}", other),
    }

    let mut overflowing = AST::new(vec![ASTNode::BinaryExpr(BinaryExpr {
        left: Expr::Literal(Literal::Int(i64::MAX)),
        op: BinOp::Add,
        right: Expr::Literal(Literal::Int(1)),
    })]);
    optimizer.optimize(&mut overflowing).unwrap();
    match &overflowing.nodes[0] {
        ASTNode::BinaryExpr(_) => {}
        other => panic!("an overflowing fold must be left alone, got {:?}", other),
    }
}

#[test]
fn test_parser_let_and_fn() {
    let mut parser = Parser::new(Lexer::new("let x = 1 + 2; fn id(a: num) -> num { a }"));
    let ast = parser.parse();
    assert_eq!(ast.nodes.len(), 2);
    match &ast.nodes[0] {
        ASTNode::VariableDecl(v) => {
            assert_eq!(v.name, "x");
            match &v.value {
                Expr::Binary(left, BinOp::Add, _) => match **left {
                    Expr::Literal(Literal::Int(1)) => {}
                    _ => panic!("expected literal 1"),
                },
                other => panic!("expected a binary expression, got {:?}", other),
            }
        }
        other => panic!("expected a variable declaration, got {:?}", other),
    }
    match &ast.nodes[1] {
        ASTNode::FunctionDecl(f) => {
            assert_eq!(f.name, "id");
            assert_eq!(f.params.len(), 1);
            assert_eq!(f.params[0].name, "a");
            assert_eq!(f.params[0].type_ref, "num");
            assert_eq!(f.return_type, "num");
            assert_eq!(f.body.len(), 1);
        }
        other => panic!("expected a function declaration, got {:?}", other),
    }
}

#[test]
fn test_parser_loop_and_for() {
    let mut parser = Parser::new(Lexer::new("loop { let a = 1; } for let i = 0; i < 3; i { }"));
    let ast = parser.parse();
    assert_eq!(ast.nodes.len(), 2);
    assert!(matches!(&ast.nodes[0], ASTNode::Loop { body } if body.len() == 1));
    match &ast.nodes[1] {
        ASTNode::For {
            init, condition, ..
        } => {
            assert!(matches!(**init, ASTNode::VariableDecl(_)));
            assert!(matches!(condition, Expr::Binary(_, BinOp::Less, _)));
        }
        other => panic!("expected a for statement, got {:?}", other),
    }
}

#[test]
fn test_csv_rows_and_headers() {
    let parser = CsvParser::new();
    let rows = parser.parse("name,age\nada,36\ngrace,47\n").unwrap();
    assert_eq!(
        rows,
        vec![
            vec!["ada".to_string(), "36".to_string()],
            vec!["grace".to_string(), "47".to_string()],
        ]
    );
    assert_eq!(parser.parse("").unwrap().len(), 0);
    let single = parser.parse("only_header").unwrap();
    assert_eq!(single.len(), 0);
    let rows = parser.parse("h\na,,b").unwrap();
    assert_eq!(rows, vec![vec!["a".to_string(), "".to_string(), "b".to_string()]]);
}

#[test]
fn test_docgen_parse_and_render() {
    let generator = DocGenerator::new("docs");
    let source = "/// Adds numbers.\n/// Carefully.\nfunction total(a, b)\n\n/// A pet.\nclass Dog {\n";
    let items = generator.parse_file("pets.safe", source);
    assert_eq!(items.len(), 2);
    assert_eq!(items[0].name, "total");
    assert_eq!(items[0].kind, DocItemKind::Function);
    assert_eq!(items[0].documentation, "Adds numbers.\nCarefully.\n");
    assert_eq!(items[0].line_number, 3);
    assert_eq!(items[1].name, "Dog");
    assert_eq!(items[1].kind, DocItemKind::Class);

    let listing = generator.generate_item_list(&items, "Everything");
    assert!(listing.contains("<h2>Everything</h2>"));
    assert!(listing.contains("<a href=\"total.html\">total</a> - Adds numbers."));

    let markdown = "# Title\n- one\n- two\n\n```\ncode line\n```\nplain";
    let html = generator.markdown_to_html(markdown);
    assert!(html.contains("<h1>Title</h1>"));
    assert!(html.contains("<li>one</li>"));
    assert!(html.contains("<pre><code>code line\n</code></pre>"));
    assert!(html.contains("<p>plain</p>"));
}

#[test]
fn test_docgen_templates_and_search_index() {
    let mut generator = DocGenerator::new("docs");
    assert!(generator.render_index(&Vec::new()).is_none());
    generator.load_template("index", "<title>{{title}} {{version}}</title>{{functions}}");
    let mut config = DocConfig::default();
    config.title = "Handbook".to_string();
    generator.set_config(config);
    let items = generator.parse_file("x.safe", "/// Frobs.\nfunction frob()\n");
    let index = generator.render_index(&items).unwrap();
    assert!(index.contains("<title>Handbook 0.1.0</title>"));
    assert!(index.contains("frob"));

    let search = generator.generate_search_index(&items);
    assert!(search.contains("\"name\":\"frob\""));
    assert!(search.contains("\"kind\":\"Function\""));
}
