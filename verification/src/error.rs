use vstd::prelude::*;

verus! {

/// Why a selection could not be made.
#[derive(Clone, Copy, Debug, PartialEq, Eq, Structural)]
pub enum Error {
    /// The weights of the collection do not sum to exactly one
    /// (`crate::rand::WEIGHT_ONE` parts per million).
    DistributionInvalid,
    /// The collection holds no items, so there is nothing to select.
    EmptyCollection,
}

impl Error {
    /// A human-readable reason for the failure.
    pub fn message(&self) -> (r: String)
        ensures
            self is DistributionInvalid ==> r@ == "probabilities do not sum to 1"@,
            self is EmptyCollection ==> r@ == "collection is empty"@,
    {
        broadcast use vstd::string::to_string_from_display_ensures_for_str;

        match self {
            Error::DistributionInvalid => "probabilities do not sum to 1".to_string(),
            Error::EmptyCollection => "collection is empty".to_string(),
        }
    }
}

} // verus!
