use safelang::diagnostics::ErrorKind;
use safelang::diagnostics::SourceLocation;
use safelang::diagnostics::Span;
use safelang::pattern::ExhaustivenessChecker;
use safelang::pattern::MatchArm;
use safelang::pattern::MatchExpr;
use safelang::pattern::Pattern;
use safelang::pattern::PatternMatcher;
use safelang::types::EnumDefinition;
use safelang::types::Type;
use safelang::types::TypeChecker;

fn span_at(line: usize, column: usize) -> Span {
    Span {
        start: SourceLocation {
            file: "main.sl".to_string(),
            line,
            column,
        },
        end: SourceLocation {
            file: "main.sl".to_string(),
            line,
            column: column + 1,
        },
    }
}

fn color_registry() -> TypeChecker {
    let mut registry = TypeChecker::new();
    registry
        .add_enum(EnumDefinition {
            name: "Color".to_string(),
            variants: vec![
                "Red".to_string(),
                "Green".to_string(),
                "Blue".to_string(),
            ],
        })
        .unwrap();
    registry
}

fn variant_arm(name: &str) -> MatchArm {
    MatchArm {
        pattern: Pattern::EnumVariant(name.to_string(), Vec::new()),
    }
}

#[test]
fn test_exhaustiveness_missing_variant() {
    let checker = ExhaustivenessChecker::new(color_registry());
    let match_expr = MatchExpr {
        scrutinee_type: Type::Enum("Color".to_string()),
        arms: vec![variant_arm("Red"), variant_arm("Green")],
        span: span_at(3, 1),
    };
    let errors = checker.check(&match_expr);
    assert_eq!(errors.len(), 1);
    assert_eq!(errors[0].kind, ErrorKind::Type);
    assert_eq!(
        errors[0].message,
        "Match is not exhaustive, missing variants: [\"Blue\"]"
    );

    let with_wildcard = MatchExpr {
        scrutinee_type: Type::Enum("Color".to_string()),
        arms: vec![
            variant_arm("Red"),
            variant_arm("Green"),
            MatchArm {
                pattern: Pattern::Wildcard,
            },
        ],
        span: span_at(3, 1),
    };
    assert_eq!(checker.check(&with_wildcard).len(), 0);
}

#[test]
fn test_exhaustiveness_sorted_missing_list() {
    let checker = ExhaustivenessChecker::new(color_registry());
    let match_expr = MatchExpr {
        scrutinee_type: Type::Enum("Color".to_string()),
        arms: Vec::new(),
        span: span_at(1, 1),
    };
    let errors = checker.check(&match_expr);
    assert_eq!(errors.len(), 1);
    assert_eq!(
        errors[0].message,
        "Match is not exhaustive, missing variants: [\"Blue\", \"Green\", \"Red\"]"
    );
}

#[test]
fn test_exhaustiveness_full_coverage() {
    let checker = ExhaustivenessChecker::new(color_registry());
    let match_expr = MatchExpr {
        scrutinee_type: Type::Enum("Color".to_string()),
        arms: vec![
            variant_arm("Red"),
            variant_arm("Green"),
            variant_arm("Blue"),
        ],
        span: span_at(2, 5),
    };
    assert_eq!(checker.check(&match_expr).len(), 0);
}

#[test]
fn test_exhaustiveness_unregistered_enum() {
    let checker = ExhaustivenessChecker::new(TypeChecker::new());
    let match_expr = MatchExpr {
        scrutinee_type: Type::Enum("Shape".to_string()),
        arms: vec![variant_arm("Circle")],
        span: span_at(7, 2),
    };
    let errors = checker.check(&match_expr);
    assert_eq!(errors.len(), 1);
    assert_eq!(errors[0].kind, ErrorKind::Reference);
}

#[test]
fn test_non_enumerable_scrutinee_needs_wildcard() {
    let checker = ExhaustivenessChecker::new(TypeChecker::new());
    let without = MatchExpr {
        scrutinee_type: Type::Int,
        arms: vec![MatchArm {
            pattern: Pattern::Literal,
        }],
        span: span_at(4, 3),
    };
    let errors = checker.check(&without);
    assert_eq!(errors.len(), 1);
    assert_eq!(errors[0].kind, ErrorKind::Type);

    let with_binding = MatchExpr {
        scrutinee_type: Type::Int,
        arms: vec![
            MatchArm {
                pattern: Pattern::Literal,
            },
            MatchArm {
                pattern: Pattern::Binding("n".to_string()),
            },
        ],
        span: span_at(4, 3),
    };
    assert_eq!(checker.check(&with_binding).len(), 0);
}

#[test]
fn test_pattern_matcher_flag() {
    let strict = PatternMatcher::new(true);
    let lenient = PatternMatcher::new(false);
    let match_expr = MatchExpr {
        scrutinee_type: Type::Bool,
        arms: vec![MatchArm {
            pattern: Pattern::Literal,
        }],
        span: span_at(9, 1),
    };
    let errors = strict.check_match(&match_expr);
    assert_eq!(errors.len(), 1);
    assert_eq!(errors[0].message, "Match expression is not exhaustive");
    assert_eq!(lenient.check_match(&match_expr).len(), 0);

    let wildcarded = MatchExpr {
        scrutinee_type: Type::Bool,
        arms: vec![MatchArm {
            pattern: Pattern::Wildcard,
        }],
        span: span_at(9, 1),
    };
    assert_eq!(strict.check_match(&wildcarded).len(), 0);
}

#[test]
fn test_has_wildcard_pattern() {
    let bare = MatchExpr {
        scrutinee_type: Type::Int,
        arms: vec![variant_arm("Red")],
        span: span_at(1, 1),
    };
    assert!(!bare.has_wildcard_pattern());
    let bound = MatchExpr {
        scrutinee_type: Type::Int,
        arms: vec![MatchArm {
            pattern: Pattern::Binding("value".to_string()),
        }],
        span: span_at(1, 1),
    };
    assert!(bound.has_wildcard_pattern());
}
