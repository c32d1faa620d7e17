use vstd::prelude::*;

verus! {

/// A short, human readable name of a state, as shown in user interfaces.
pub trait ShortName {
    /// The name as a sequence of characters.
    spec fn short_name_spec(&self) -> Seq<char>;

    /// Returns the short name of `self`.
    fn short_name(&self) -> (name: &'static str)
        ensures
            name@ == self.short_name_spec(),
    ;
}

} // verus!
