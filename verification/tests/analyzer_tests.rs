use safelang::analyzer::CheckNode;
use safelang::analyzer::CompilationUnit;
use safelang::analyzer::Declaration;
use safelang::analyzer::SemanticAnalyzer;
use safelang::diagnostics::ErrorKind;
use safelang::diagnostics::SourceLocation;
use safelang::diagnostics::Span;
use safelang::pattern::MatchArm;
use safelang::pattern::MatchExpr;
use safelang::pattern::Pattern;
use safelang::types::EnumDefinition;
use safelang::types::Type;

fn at(line: usize) -> Span {
    Span {
        start: SourceLocation {
            file: "unit.sl".to_string(),
            line,
            column: 1,
        },
        end: SourceLocation {
            file: "unit.sl".to_string(),
            line,
            column: 2,
        },
    }
}

#[test]
fn test_analyzer_collects_every_diagnostic() {
    let unit = CompilationUnit {
        declarations: vec![
            Declaration::Class {
                name: "Animal".to_string(),
                parent: None,
                span: at(1),
            },
            Declaration::Class {
                name: "Dog".to_string(),
                parent: Some("Animal".to_string()),
                span: at(2),
            },
            // a duplicate: reported, then collection continues
            Declaration::Class {
                name: "Animal".to_string(),
                parent: None,
                span: at(3),
            },
            Declaration::Enum {
                definition: EnumDefinition {
                    name: "Color".to_string(),
                    variants: vec!["Red".to_string(), "Green".to_string(), "Blue".to_string()],
                },
                span: at(4),
            },
            Declaration::InterfaceImpl {
                class_name: "Wraith".to_string(),
                interface_name: "Living".to_string(),
                span: at(5),
            },
        ],
        checks: vec![
            CheckNode::Assignment {
                target: Type::Class("Animal".to_string()),
                value: Type::Class("Dog".to_string()),
                span: at(6),
            },
            CheckNode::Assignment {
                target: Type::Class("Dog".to_string()),
                value: Type::Class("Animal".to_string()),
                span: at(7),
            },
            CheckNode::Match(MatchExpr {
                scrutinee_type: Type::Enum("Color".to_string()),
                arms: vec![MatchArm {
                    pattern: Pattern::EnumVariant("Red".to_string(), Vec::new()),
                }],
                span: at(8),
            }),
            CheckNode::Declare {
                name: "x".to_string(),
                span: at(9),
            },
            CheckNode::Move {
                from: "x".to_string(),
                to: "y".to_string(),
                span: at(10),
            },
            CheckNode::Move {
                from: "x".to_string(),
                to: "z".to_string(),
                span: at(11),
            },
        ],
    };

    let mut analyzer = SemanticAnalyzer::new();
    let diagnostics = analyzer.analyze(&unit);
    assert_eq!(diagnostics.warning_count(), 0);
    assert_eq!(diagnostics.error_count(), 5);
    let errors = diagnostics.errors();
    assert_eq!(errors[0].kind, ErrorKind::Name); // duplicate class
    assert_eq!(errors[1].kind, ErrorKind::Reference); // unknown implementing class
    assert_eq!(errors[2].kind, ErrorKind::Type); // bad assignment
    assert_eq!(
        errors[2].message,
        "Cannot assign value of type Animal to variable of type Dog"
    );
    assert_eq!(errors[3].kind, ErrorKind::Type); // non-exhaustive match
    assert_eq!(
        errors[3].message,
        "Match is not exhaustive, missing variants: [\"Blue\", \"Green\"]"
    );
    assert_eq!(errors[4].kind, ErrorKind::Ownership); // move out of a moved binding
    assert_eq!(errors[4].message, "Variable 'x' used after being moved");
}

#[test]
fn test_analyzer_clean_unit() {
    let unit = CompilationUnit {
        declarations: vec![Declaration::Class {
            name: "Animal".to_string(),
            parent: None,
            span: at(1),
        }],
        checks: vec![
            CheckNode::Declare {
                name: "pet".to_string(),
                span: at(2),
            },
            CheckNode::Borrow {
                name: "pet".to_string(),
                span: at(3),
            },
            CheckNode::ReleaseBorrow {
                name: "pet".to_string(),
                span: at(4),
            },
            CheckNode::BorrowMut {
                name: "pet".to_string(),
                span: at(5),
            },
        ],
    };
    let mut analyzer = SemanticAnalyzer::new();
    let diagnostics = analyzer.analyze(&unit);
    assert!(!diagnostics.has_errors());
}
