//! The ownership/borrow tracker: an affine-typing state machine over named
//! bindings. A binding is owned, moved-from, shared-borrowed a counted number
//! of times, or exclusively mutably borrowed — never two of these at once.

use vstd::prelude::*;

use crate::strutil::str_copy;
use crate::table::assoc_get;
use crate::table::assoc_put;
use crate::table::spec_assoc;

verus! {

/// The exclusive states a binding can be in.
#[derive(Clone, Copy, Debug, PartialEq, Eq, Structural)]
pub enum OwnershipState {
    Owned,
    Moved,
    Borrowed(usize),
    MutBorrowed,
}

/// A violation of the affine-typing discipline.
#[derive(Clone, Debug)]
pub enum OwnershipError {
    AlreadyDeclared(String),
    Undeclared(String),
    UseAfterMove(String),
    MoveWhileBorrowed(String),
    BorrowWhileMutBorrowed(String),
    MutBorrowWhileBorrowed(String),
    MutBorrowWhileMutBorrowed(String),
    ReleaseUnborrowed(String),
}

/// The rendered message of an ownership violation.
pub open spec fn spec_ownership_error_message(e: OwnershipError) -> Seq<char> {
    match e {
        OwnershipError::AlreadyDeclared(n) => "Variable '"@ + n@ + "' is already declared"@,
        OwnershipError::Undeclared(n) => "Variable '"@ + n@ + "' is not declared"@,
        OwnershipError::UseAfterMove(n) => "Variable '"@ + n@ + "' used after being moved"@,
        OwnershipError::MoveWhileBorrowed(n) => "Cannot move variable '"@ + n@
            + "' while it is borrowed"@,
        OwnershipError::BorrowWhileMutBorrowed(n) => "Cannot borrow variable '"@ + n@
            + "' while it is mutably borrowed"@,
        OwnershipError::MutBorrowWhileBorrowed(n) => "Cannot mutably borrow variable '"@ + n@
            + "' while it is already borrowed"@,
        OwnershipError::MutBorrowWhileMutBorrowed(n) => "Cannot mutably borrow variable '"@ + n@
            + "' while it is already mutably borrowed"@,
        OwnershipError::ReleaseUnborrowed(n) => "Cannot release borrow on variable '"@ + n@
            + "' that is not borrowed"@,
    }
}

impl OwnershipError {
    /// Renders the violation as its user-facing message.
    pub fn message(&self) -> (r: String)
        ensures
            r@ == spec_ownership_error_message(*self),
    {
        match self {
            OwnershipError::AlreadyDeclared(n) => {
                let mut out = str_copy("Variable '");
                out.append(n.as_str());
                out.append("' is already declared");
                out
            },
            OwnershipError::Undeclared(n) => {
                let mut out = str_copy("Variable '");
                out.append(n.as_str());
                out.append("' is not declared");
                out
            },
            OwnershipError::UseAfterMove(n) => {
                let mut out = str_copy("Variable '");
                out.append(n.as_str());
                out.append("' used after being moved");
                out
            },
            OwnershipError::MoveWhileBorrowed(n) => {
                let mut out = str_copy("Cannot move variable '");
                out.append(n.as_str());
                out.append("' while it is borrowed");
                out
            },
            OwnershipError::BorrowWhileMutBorrowed(n) => {
                let mut out = str_copy("Cannot borrow variable '");
                out.append(n.as_str());
                out.append("' while it is mutably borrowed");
                out
            },
            OwnershipError::MutBorrowWhileBorrowed(n) => {
                let mut out = str_copy("Cannot mutably borrow variable '");
                out.append(n.as_str());
                out.append("' while it is already borrowed");
                out
            },
            OwnershipError::MutBorrowWhileMutBorrowed(n) => {
                let mut out = str_copy("Cannot mutably borrow variable '");
                out.append(n.as_str());
                out.append("' while it is already mutably borrowed");
                out
            },
            OwnershipError::ReleaseUnborrowed(n) => {
                let mut out = str_copy("Cannot release borrow on variable '");
                out.append(n.as_str());
                out.append("' that is not borrowed");
                out
            },
        }
    }
}

/// Tracks the ownership state of every declared binding. A failed operation
/// reports its violation and leaves the whole table untouched.
#[derive(Debug)]
pub struct OwnershipTracker {
    variables: Vec<(String, OwnershipState)>,
}

impl OwnershipTracker {
    /// The state of the binding named `name`, or `None` when undeclared.
    pub closed spec fn spec_state(&self, name: Seq<char>) -> Option<OwnershipState> {
        spec_assoc(self.variables@, name)
    }

    /// An empty tracker: nothing is declared.
    pub fn new() -> (r: OwnershipTracker)
        ensures
            forall|name: Seq<char>| r.spec_state(name) is None,
    {
        OwnershipTracker { variables: Vec::new() }
    }

    /// The current state of a binding.
    pub fn state_of(&self, name: &str) -> (r: Option<OwnershipState>)
        ensures
            r == self.spec_state(name@),
    {
        match assoc_get(&self.variables, name) {
            Some(state) => Some(*state),
            None => None,
        }
    }

    /// Declares a fresh binding, which starts out owned; redeclaring an
    /// existing one fails with `AlreadyDeclared`.
    pub fn declare(&mut self, name: &str) -> (r: Result<(), OwnershipError>)
        ensures
            r is Ok <==> old(self).spec_state(name@) is None,
            r is Err ==> *final(self) == *old(self),
            r matches Err(e) ==> (e matches OwnershipError::AlreadyDeclared(n) && n@ == name@),
            r is Ok ==> final(self).spec_state(name@) == Some(OwnershipState::Owned),
            forall|other: Seq<char>|
                other != name@ ==> final(self).spec_state(other) == old(self).spec_state(other),
    {
        if self.state_of(name).is_some() {
            return Err(OwnershipError::AlreadyDeclared(str_copy(name)));
        }
        assoc_put(&mut self.variables, str_copy(name), OwnershipState::Owned);
        Ok(())
    }

    /// Moves the value out of `from` into `to`: `from` must be owned; it
    /// becomes moved-from and `to` becomes owned (any prior value at `to`
    /// counts as dropped).
    pub fn move_ownership(&mut self, from: &str, to: &str) -> (r: Result<(), OwnershipError>)
        ensures
            r is Ok <==> old(self).spec_state(from@) == Some(OwnershipState::Owned),
            r is Err ==> *final(self) == *old(self),
            r matches Err(e) ==> match old(self).spec_state(from@) {
                None => e matches OwnershipError::Undeclared(n) && n@ == from@,
                Some(OwnershipState::Moved) => e matches OwnershipError::UseAfterMove(n) && n@
                    == from@,
                _ => e matches OwnershipError::MoveWhileBorrowed(n) && n@ == from@,
            },
            r is Ok ==> {
                &&& final(self).spec_state(to@) == Some(OwnershipState::Owned)
                &&& (from@ != to@ ==> final(self).spec_state(from@) == Some(
                    OwnershipState::Moved,
                ))
                &&& (forall|other: Seq<char>|
                    other != from@ && other != to@ ==> final(self).spec_state(other) == old(
                        self,
                    ).spec_state(other))
            },
    {
        match self.state_of(from) {
            Some(OwnershipState::Owned) => {
                assoc_put(&mut self.variables, str_copy(from), OwnershipState::Moved);
                assoc_put(&mut self.variables, str_copy(to), OwnershipState::Owned);
                Ok(())
            },
            Some(OwnershipState::Moved) => Err(OwnershipError::UseAfterMove(str_copy(from))),
            Some(OwnershipState::Borrowed(_)) => Err(
                OwnershipError::MoveWhileBorrowed(str_copy(from)),
            ),
            Some(OwnershipState::MutBorrowed) => Err(
                OwnershipError::MoveWhileBorrowed(str_copy(from)),
            ),
            None => Err(OwnershipError::Undeclared(str_copy(from))),
        }
    }

    /// Takes one more shared borrow of `name`: an owned binding becomes
    /// borrowed once, an already borrowed one is borrowed once more.
    pub fn borrow(&mut self, name: &str) -> (r: Result<(), OwnershipError>)
        requires
            old(self).spec_state(name@) != Some(OwnershipState::Borrowed(usize::MAX)),
        ensures
            r is Ok <==> (old(self).spec_state(name@) == Some(OwnershipState::Owned) || old(
                self,
            ).spec_state(name@) matches Some(OwnershipState::Borrowed(_))),
            r is Err ==> *final(self) == *old(self),
            r matches Err(e) ==> match old(self).spec_state(name@) {
                None => e matches OwnershipError::Undeclared(n) && n@ == name@,
                Some(OwnershipState::Moved) => e matches OwnershipError::UseAfterMove(n) && n@
                    == name@,
                _ => e matches OwnershipError::BorrowWhileMutBorrowed(n) && n@ == name@,
            },
            r is Ok ==> {
                &&& final(self).spec_state(name@) == Some(
                    match old(self).spec_state(name@) {
                        Some(OwnershipState::Borrowed(count)) => OwnershipState::Borrowed(
                            (count + 1) as usize,
                        ),
                        _ => OwnershipState::Borrowed(1usize),
                    },
                )
                &&& (forall|other: Seq<char>|
                    other != name@ ==> final(self).spec_state(other) == old(self).spec_state(
                        other,
                    ))
            },
    {
        match self.state_of(name) {
            Some(OwnershipState::Owned) => {
                assoc_put(&mut self.variables, str_copy(name), OwnershipState::Borrowed(1));
                Ok(())
            },
            Some(OwnershipState::Borrowed(count)) => {
                assoc_put(
                    &mut self.variables,
                    str_copy(name),
                    OwnershipState::Borrowed(count + 1),
                );
                Ok(())
            },
            Some(OwnershipState::Moved) => Err(OwnershipError::UseAfterMove(str_copy(name))),
            Some(OwnershipState::MutBorrowed) => Err(
                OwnershipError::BorrowWhileMutBorrowed(str_copy(name)),
            ),
            None => Err(OwnershipError::Undeclared(str_copy(name))),
        }
    }

    /// Takes the exclusive mutable borrow of `name`, which must be owned.
    pub fn borrow_mut(&mut self, name: &str) -> (r: Result<(), OwnershipError>)
        ensures
            r is Ok <==> old(self).spec_state(name@) == Some(OwnershipState::Owned),
            r is Err ==> *final(self) == *old(self),
            r matches Err(e) ==> match old(self).spec_state(name@) {
                None => e matches OwnershipError::Undeclared(n) && n@ == name@,
                Some(OwnershipState::Moved) => e matches OwnershipError::UseAfterMove(n) && n@
                    == name@,
                Some(OwnershipState::Borrowed(_)) => e
                    matches OwnershipError::MutBorrowWhileBorrowed(n) && n@ == name@,
                _ => e matches OwnershipError::MutBorrowWhileMutBorrowed(n) && n@ == name@,
            },
            r is Ok ==> {
                &&& final(self).spec_state(name@) == Some(OwnershipState::MutBorrowed)
                &&& (forall|other: Seq<char>|
                    other != name@ ==> final(self).spec_state(other) == old(self).spec_state(
                        other,
                    ))
            },
    {
        match self.state_of(name) {
            Some(OwnershipState::Owned) => {
                assoc_put(&mut self.variables, str_copy(name), OwnershipState::MutBorrowed);
                Ok(())
            },
            Some(OwnershipState::Borrowed(_)) => Err(
                OwnershipError::MutBorrowWhileBorrowed(str_copy(name)),
            ),
            Some(OwnershipState::Moved) => Err(OwnershipError::UseAfterMove(str_copy(name))),
            Some(OwnershipState::MutBorrowed) => Err(
                OwnershipError::MutBorrowWhileMutBorrowed(str_copy(name)),
            ),
            None => Err(OwnershipError::Undeclared(str_copy(name))),
        }
    }

    /// Releases one borrow of `name`: the last shared borrow or the mutable
    /// borrow returns it to owned; an earlier shared borrow just counts down.
    pub fn release_borrow(&mut self, name: &str) -> (r: Result<(), OwnershipError>)
        ensures
            r is Ok <==> (old(self).spec_state(name@) matches Some(OwnershipState::Borrowed(_))
                || old(self).spec_state(name@) == Some(OwnershipState::MutBorrowed)),
            r is Err ==> *final(self) == *old(self),
            r matches Err(e) ==> match old(self).spec_state(name@) {
                None => e matches OwnershipError::Undeclared(n) && n@ == name@,
                Some(OwnershipState::Moved) => e matches OwnershipError::UseAfterMove(n) && n@
                    == name@,
                _ => e matches OwnershipError::ReleaseUnborrowed(n) && n@ == name@,
            },
            r is Ok ==> {
                &&& final(self).spec_state(name@) == Some(
                    match old(self).spec_state(name@) {
                        Some(OwnershipState::Borrowed(count)) => if count > 1 {
                            OwnershipState::Borrowed((count - 1) as usize)
                        } else {
                            OwnershipState::Owned
                        },
                        _ => OwnershipState::Owned,
                    },
                )
                &&& (forall|other: Seq<char>|
                    other != name@ ==> final(self).spec_state(other) == old(self).spec_state(
                        other,
                    ))
            },
    {
        match self.state_of(name) {
            Some(OwnershipState::Borrowed(count)) => {
                if count <= 1 {
                    assoc_put(&mut self.variables, str_copy(name), OwnershipState::Owned);
                } else {
                    assoc_put(
                        &mut self.variables,
                        str_copy(name),
                        OwnershipState::Borrowed(count - 1),
                    );
                }
                Ok(())
            },
            Some(OwnershipState::MutBorrowed) => {
                assoc_put(&mut self.variables, str_copy(name), OwnershipState::Owned);
                Ok(())
            },
            Some(OwnershipState::Owned) => Err(OwnershipError::ReleaseUnborrowed(str_copy(name))),
            Some(OwnershipState::Moved) => Err(OwnershipError::UseAfterMove(str_copy(name))),
            None => Err(OwnershipError::Undeclared(str_copy(name))),
        }
    }
}

} // verus!
