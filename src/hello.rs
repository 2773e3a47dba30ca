//! A type that can introduce itself.
use vstd::prelude::*;

verus! {

/// Implemented by a type that greets by its own name.
pub trait HelloMacro {
    fn hello_macro();
}

} // verus!
