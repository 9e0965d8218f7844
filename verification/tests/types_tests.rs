use safelang::types::render_type;
use safelang::types::Type;
use safelang::types::TypeChecker;
use safelang::types::TypeError;
use safelang::diagnostics::ErrorKind;

#[test]
fn test_subtype_reflexivity_samples() {
    let checker = TypeChecker::new();
    let samples = vec![
        Type::Void,
        Type::Int,
        Type::Array(Box::new(Type::Int)),
        Type::Optional(Box::new(Type::String)),
        Type::Union(vec![Type::Int, Type::Bool]),
        Type::Function(vec![Type::Int, Type::Bool], Box::new(Type::Void)),
        Type::Mapping(Box::new(Type::String), Box::new(Type::Int)),
        Type::Generic("Box".to_string(), vec![Type::Int]),
        Type::Class("Animal".to_string()),
    ];
    for t in &samples {
        assert!(checker.is_subtype(t, t));
    }
}

#[test]
fn test_optional_admits_base() {
    let checker = TypeChecker::new();
    let int_opt = Type::Optional(Box::new(Type::Int));
    assert!(checker.is_subtype(&Type::Int, &int_opt));
    assert!(!checker.is_subtype(&int_opt, &Type::Int));
}

#[test]
fn test_class_chain() {
    let mut checker = TypeChecker::new();
    checker.add_class("Animal", None).unwrap();
    checker.add_class("Dog", Some("Animal")).unwrap();
    let dog = Type::Class("Dog".to_string());
    let animal = Type::Class("Animal".to_string());
    assert!(checker.is_subtype(&dog, &animal));
    assert!(!checker.is_subtype(&animal, &dog));
}

#[test]
fn test_deep_class_chain_and_interfaces() {
    let mut checker = TypeChecker::new();
    checker.add_class("Animal", None).unwrap();
    checker.add_class("Dog", Some("Animal")).unwrap();
    checker.add_class("Puppy", Some("Dog")).unwrap();
    checker
        .add_interface_implementation("Animal", "Living")
        .unwrap();
    let puppy = Type::Class("Puppy".to_string());
    let animal = Type::Class("Animal".to_string());
    let living = Type::Interface("Living".to_string());
    assert!(checker.is_subtype(&puppy, &animal));
    assert!(checker.is_subtype(&puppy, &living));
    assert!(checker.is_subtype(&animal, &living));
    assert!(!checker.is_subtype(&animal, &Type::Interface("Winged".to_string())));
}

#[test]
fn test_function_variance() {
    let mut checker = TypeChecker::new();
    checker.add_class("Animal", None).unwrap();
    checker.add_class("Dog", Some("Animal")).unwrap();
    let f1 = Type::Function(
        vec![Type::Class("Animal".to_string())],
        Box::new(Type::Class("Dog".to_string())),
    );
    let f2 = Type::Function(
        vec![Type::Class("Dog".to_string())],
        Box::new(Type::Class("Animal".to_string())),
    );
    assert!(checker.is_subtype(&f1, &f2));
    assert!(!checker.is_subtype(&f2, &f1));
}

#[test]
fn test_union_rules() {
    let checker = TypeChecker::new();
    let int_string = Type::Union(vec![Type::Int, Type::String]);
    let int_string_bool = Type::Union(vec![Type::Int, Type::String, Type::Bool]);
    let int_bool = Type::Union(vec![Type::Int, Type::Bool]);
    assert!(checker.is_subtype(&Type::Int, &int_string));
    assert!(checker.is_subtype(&int_string, &int_string_bool));
    assert!(!checker.is_subtype(&int_bool, &Type::Int));
}

#[test]
fn test_subtype_determinism() {
    let mut checker = TypeChecker::new();
    checker.add_class("Animal", None).unwrap();
    checker.add_class("Dog", Some("Animal")).unwrap();
    let dog = Type::Class("Dog".to_string());
    let animal = Type::Class("Animal".to_string());
    let first = checker.is_subtype(&dog, &animal);
    let second = checker.is_subtype(&dog, &animal);
    assert_eq!(first, second);
}

#[test]
fn test_array_covariance() {
    let mut checker = TypeChecker::new();
    checker.add_class("Animal", None).unwrap();
    checker.add_class("Dog", Some("Animal")).unwrap();
    let dogs = Type::Array(Box::new(Type::Class("Dog".to_string())));
    let animals = Type::Array(Box::new(Type::Class("Animal".to_string())));
    assert!(checker.is_subtype(&dogs, &animals));
    assert!(!checker.is_subtype(&animals, &dogs));
}

#[test]
fn test_add_class_errors() {
    let mut checker = TypeChecker::new();
    checker.add_class("Animal", None).unwrap();
    let duplicate = checker.add_class("Animal", None).unwrap_err();
    assert_eq!(duplicate.kind, ErrorKind::Name);
    let orphan = checker.add_class("Dog", Some("Plant")).unwrap_err();
    assert_eq!(orphan.kind, ErrorKind::Reference);
    let unknown_class = checker
        .add_interface_implementation("Ghost", "Living")
        .unwrap_err();
    assert_eq!(unknown_class.kind, ErrorKind::Reference);
}

#[test]
fn test_variable_environment() {
    let mut checker = TypeChecker::new();
    checker.add_variable("x", Type::Int);
    assert_eq!(checker.get_variable_type("x"), Some(&Type::Int));
    assert_eq!(checker.get_variable_type("y"), None);
    checker.add_variable("x", Type::Bool);
    assert_eq!(checker.get_variable_type("x"), Some(&Type::Bool));
}

#[test]
fn test_check_assignment_messages() {
    let checker = TypeChecker::new();
    assert!(checker.check_assignment(&Type::Int, &Type::Int).is_ok());
    let err = checker
        .check_assignment(&Type::Bool, &Type::Int)
        .unwrap_err();
    match &err {
        TypeError::IncompatibleTypes(from, to) => {
            assert_eq!(from, "int");
            assert_eq!(to, "bool");
        }
        other => panic!("unexpected error {:?}", other),
    }
    assert_eq!(
        err.message(),
        "Cannot assign value of type int to variable of type bool"
    );
}

#[test]
fn test_type_rendering() {
    assert_eq!(render_type(&Type::Int), "int");
    assert_eq!(render_type(&Type::Array(Box::new(Type::Float))), "float[]");
    assert_eq!(
        render_type(&Type::Mapping(Box::new(Type::String), Box::new(Type::Int))),
        "Map<string, int>"
    );
    assert_eq!(
        render_type(&Type::Function(
            vec![Type::Int, Type::Bool],
            Box::new(Type::Void)
        )),
        "function(int, bool): void"
    );
    assert_eq!(
        render_type(&Type::Optional(Box::new(Type::Int))),
        "int?"
    );
    assert_eq!(
        render_type(&Type::Union(vec![Type::Int, Type::String])),
        "int | string"
    );
    assert_eq!(
        render_type(&Type::Generic(
            "List".to_string(),
            vec![Type::Optional(Box::new(Type::Bool))]
        )),
        "List<bool?>"
    );
    assert_eq!(render_type(&Type::Unknown), "unknown");
}

#[test]
fn test_type_error_messages() {
    assert_eq!(
        TypeError::UndefinedVariable("spot".to_string()).message(),
        "Undefined variable: spot"
    );
    assert_eq!(
        TypeError::WrongNumberOfArguments(2, 3).message(),
        "Expected 2 arguments but got 3"
    );
    assert_eq!(
        TypeError::InvalidOperator("+".to_string(), "int".to_string(), "bool".to_string())
            .message(),
        "Operator + not defined for types int and bool"
    );
}
