//! The features of one day.

use crate::domain::number::Binary64;
use crate::domain::recommendation::{distinct_names, Feature};
use crate::time::Date;
use vstd::prelude::*;

verus! {

/// What a provider answers for one day.
#[derive(Debug, Clone)]
pub struct DailyFeaturesResponse {
    pub as_of_date: Date,
    pub items: Vec<DailyFeatureItem>,
}

/// The features of one ticker on one day. They are a map from names to values: no
/// name occurs twice in an item that is well formed.
#[derive(Debug, Clone)]
pub struct DailyFeatureItem {
    pub ticker: String,
    pub name: String,
    pub trading_value: Option<Binary64>,
    pub features: Vec<Feature>,
}

impl DailyFeatureItem {
    /// Whether the item's features are a map: no name occurs twice.
    pub open spec fn wf(&self) -> bool {
        distinct_names(self.features@)
    }
}

} // verus!
