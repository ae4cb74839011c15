use vstd::prelude::*;

use crate::named::Named;

verus! {

/// A learnable skill template.
pub struct Skill {
    pub name: String,
    pub description: String,
}

impl Named for Skill {
    open spec fn spec_name(&self) -> Seq<char> {
        self.name@
    }

    fn name(&self) -> (r: String) {
        self.name.clone()
    }
}

/// A player class template.
pub struct Class {
    pub name: String,
    pub description: String,
    pub proficiency: Vec<String>,
}

impl Named for Class {
    open spec fn spec_name(&self) -> Seq<char> {
        self.name@
    }

    fn name(&self) -> (r: String) {
        self.name.clone()
    }
}

} // verus!
