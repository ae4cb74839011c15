use vstd::prelude::*;

verus! {

/// Name-based lookup capability: every content-entity kind exposes a display
/// name, used for case-insensitive id-or-name resolution.
pub trait Named {
    /// The display name's characters.
    spec fn spec_name(&self) -> Seq<char>;

    fn name(&self) -> (r: String)
        ensures
            r@ == self.spec_name(),
    ;
}

} // verus!
