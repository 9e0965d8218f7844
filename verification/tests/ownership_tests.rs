use safelang::ownership::OwnershipError;
use safelang::ownership::OwnershipState;
use safelang::ownership::OwnershipTracker;

#[test]
fn test_ownership_sequence() {
    let mut tracker = OwnershipTracker::new();
    tracker.declare("x").unwrap();
    tracker.move_ownership("x", "y").unwrap();
    match tracker.move_ownership("x", "z").unwrap_err() {
        OwnershipError::UseAfterMove(name) => assert_eq!(name, "x"),
        other => panic!("unexpected error {:?}", other),
    }
    tracker.borrow("y").unwrap();
    tracker.borrow("y").unwrap();
    assert_eq!(tracker.state_of("y"), Some(OwnershipState::Borrowed(2)));
    match tracker.borrow_mut("y").unwrap_err() {
        OwnershipError::MutBorrowWhileBorrowed(name) => assert_eq!(name, "y"),
        other => panic!("unexpected error {:?}", other),
    }
    tracker.release_borrow("y").unwrap();
    tracker.release_borrow("y").unwrap();
    assert_eq!(tracker.state_of("y"), Some(OwnershipState::Owned));
    tracker.borrow_mut("y").unwrap();
    assert_eq!(tracker.state_of("y"), Some(OwnershipState::MutBorrowed));
}

#[test]
fn test_declare_and_redeclare() {
    let mut tracker = OwnershipTracker::new();
    assert_eq!(tracker.state_of("x"), None);
    tracker.declare("x").unwrap();
    assert_eq!(tracker.state_of("x"), Some(OwnershipState::Owned));
    match tracker.declare("x").unwrap_err() {
        OwnershipError::AlreadyDeclared(name) => assert_eq!(name, "x"),
        other => panic!("unexpected error {:?}", other),
    }
}

#[test]
fn test_undeclared_operations() {
    let mut tracker = OwnershipTracker::new();
    assert!(matches!(
        tracker.move_ownership("a", "b"),
        Err(OwnershipError::Undeclared(_))
    ));
    assert!(matches!(
        tracker.borrow("a"),
        Err(OwnershipError::Undeclared(_))
    ));
    assert!(matches!(
        tracker.borrow_mut("a"),
        Err(OwnershipError::Undeclared(_))
    ));
    assert!(matches!(
        tracker.release_borrow("a"),
        Err(OwnershipError::Undeclared(_))
    ));
}

#[test]
fn test_borrow_conflicts() {
    let mut tracker = OwnershipTracker::new();
    tracker.declare("v").unwrap();
    tracker.borrow_mut("v").unwrap();
    assert!(matches!(
        tracker.borrow("v"),
        Err(OwnershipError::BorrowWhileMutBorrowed(_))
    ));
    assert!(matches!(
        tracker.borrow_mut("v"),
        Err(OwnershipError::MutBorrowWhileMutBorrowed(_))
    ));
    assert!(matches!(
        tracker.move_ownership("v", "w"),
        Err(OwnershipError::MoveWhileBorrowed(_))
    ));
    tracker.release_borrow("v").unwrap();
    assert_eq!(tracker.state_of("v"), Some(OwnershipState::Owned));
}

#[test]
fn test_use_after_move_and_release_errors() {
    let mut tracker = OwnershipTracker::new();
    tracker.declare("m").unwrap();
    tracker.move_ownership("m", "n").unwrap();
    assert_eq!(tracker.state_of("m"), Some(OwnershipState::Moved));
    assert!(matches!(
        tracker.borrow("m"),
        Err(OwnershipError::UseAfterMove(_))
    ));
    assert!(matches!(
        tracker.borrow_mut("m"),
        Err(OwnershipError::UseAfterMove(_))
    ));
    assert!(matches!(
        tracker.release_borrow("m"),
        Err(OwnershipError::UseAfterMove(_))
    ));
    assert!(matches!(
        tracker.release_borrow("n"),
        Err(OwnershipError::ReleaseUnborrowed(_))
    ));
}

#[test]
fn test_move_reuses_destination() {
    let mut tracker = OwnershipTracker::new();
    tracker.declare("a").unwrap();
    tracker.declare("b").unwrap();
    tracker.move_ownership("a", "b").unwrap();
    assert_eq!(tracker.state_of("a"), Some(OwnershipState::Moved));
    assert_eq!(tracker.state_of("b"), Some(OwnershipState::Owned));
}

#[test]
fn test_ownership_error_messages() {
    assert_eq!(
        OwnershipError::AlreadyDeclared("x".to_string()).message(),
        "Variable 'x' is already declared"
    );
    assert_eq!(
        OwnershipError::Undeclared("x".to_string()).message(),
        "Variable 'x' is not declared"
    );
    assert_eq!(
        OwnershipError::UseAfterMove("x".to_string()).message(),
        "Variable 'x' used after being moved"
    );
    assert_eq!(
        OwnershipError::MoveWhileBorrowed("x".to_string()).message(),
        "Cannot move variable 'x' while it is borrowed"
    );
    assert_eq!(
        OwnershipError::BorrowWhileMutBorrowed("x".to_string()).message(),
        "Cannot borrow variable 'x' while it is mutably borrowed"
    );
    assert_eq!(
        OwnershipError::MutBorrowWhileBorrowed("x".to_string()).message(),
        "Cannot mutably borrow variable 'x' while it is already borrowed"
    );
    assert_eq!(
        OwnershipError::MutBorrowWhileMutBorrowed("x".to_string()).message(),
        "Cannot mutably borrow variable 'x' while it is already mutably borrowed"
    );
    assert_eq!(
        OwnershipError::ReleaseUnborrowed("x".to_string()).message(),
        "Cannot release borrow on variable 'x' that is not borrowed"
    );
}
