use vstd::prelude::*;

verus! {

/// Authored metadata about the loaded content set.
pub struct Metadata {
    pub title: String,
    pub description: String,
    pub authors: Vec<String>,
}

/// How the world's currency is named and priced.
pub struct CurrencyData {
    pub singular: String,
    pub plural: String,
    pub symbol: String,
    /// Carriage fare per unit of travel distance.
    pub dist_cost: u64,
}

/// World-level configuration.
pub struct World {
    pub name: String,
    pub description: String,
    pub currency: CurrencyData,
}

/// The full runtime configuration.
pub struct Config {
    pub metadata: Metadata,
    pub prompt: String,
    pub exposition: String,
    pub world: World,
}

} // verus!
