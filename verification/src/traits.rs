//! Traits that the library's users implement.
use vstd::prelude::*;

verus! {

/// A value that can be checked and turned into a validated item.
pub trait Validate {
    type Item;
    type Error;

    fn validate(self) -> Result<Self::Item, Self::Error>;
}

} // verus!
