//! The borrow bookkeeping of a cell that lends out its value: any number of
//! shared borrows, or one exclusive borrow, at a time.
use vstd::prelude::*;

verus! {

/// Who is borrowing the value.
#[derive(Copy, Clone, Debug, PartialEq, Eq, Structural)]
pub enum RefState {
    /// Nobody.
    Unshared,
    /// This many shared borrows, at least one.
    Shared(usize),
    /// One exclusive borrow.
    Exclusive,
}

impl RefState {
    /// The state after one more shared borrow, or `None` where it must be
    /// refused: while the value is lent out exclusively, or when the count of
    /// shared borrows cannot grow further.
    pub fn share(self) -> (r: Option<RefState>)
        ensures
            self == RefState::Unshared ==> r == Some(RefState::Shared(1)),
            self matches RefState::Shared(n) ==> r == if n < usize::MAX {
                Some(RefState::Shared((n + 1) as usize))
            } else {
                None::<RefState>
            },
            self == RefState::Exclusive ==> r is None,
    {
        match self {
            RefState::Unshared => Some(RefState::Shared(1)),
            RefState::Shared(n) => if n < usize::MAX {
                Some(RefState::Shared(n + 1))
            } else {
                None
            },
            RefState::Exclusive => None,
        }
    }

    /// The state after an exclusive borrow, or `None` where it must be
    /// refused: while any borrow is out.
    pub fn share_mut(self) -> (r: Option<RefState>)
        ensures
            self == RefState::Unshared ==> r == Some(RefState::Exclusive),
            self != RefState::Unshared ==> r is None,
    {
        match self {
            RefState::Unshared => Some(RefState::Exclusive),
            _ => None,
        }
    }

    /// The state after a shared borrow ends.
    pub fn unshare(self) -> (r: RefState)
        requires
            self matches RefState::Shared(n) && n >= 1,
        ensures
            self matches RefState::Shared(n) ==> r == if n == 1 {
                RefState::Unshared
            } else {
                RefState::Shared((n - 1) as usize)
            },
    {
        match self {
            RefState::Shared(n) => if n == 1 {
                RefState::Unshared
            } else {
                RefState::Shared(n - 1)
            },
            _ => self,
        }
    }

    /// The state after the exclusive borrow ends.
    pub fn unshare_mut(self) -> (r: RefState)
        requires
            self == RefState::Exclusive,
        ensures
            r == RefState::Unshared,
    {
        RefState::Unshared
    }
}

} // verus!
