//! A validated snapshot of recommendations, and the candidates it is chosen from.

use crate::domain::number::{unit_interval_bits, Binary64};
use crate::text::{same_text, trimmed};
use crate::time::{Date, Timestamp};
use vstd::prelude::*;

verus! {

/// How many items a snapshot holds; its ranks are 1 to this number.
pub const SNAPSHOT_SIZE: usize = 20;

/// How many lines the rationale of an item has.
pub const RATIONALE_LINES: usize = 3;

/// What an item says, as mathematical values. A model's raw item and a validated one
/// have this same form.
#[verifier::ext_equal]
pub struct ItemView {
    pub rank: i32,
    pub ticker: Seq<char>,
    pub name: Seq<char>,
    pub rationale: Seq<Seq<char>>,
    pub risk_notes: Option<Seq<char>>,
    pub confidence: Option<Binary64>,
}

/// What a snapshot says, as mathematical values.
#[verifier::ext_equal]
pub struct SnapshotView {
    pub as_of_date: Date,
    pub generated_at: Timestamp,
    pub items: Seq<ItemView>,
}

/// One ranked recommendation.
#[derive(Debug, Clone)]
pub struct RecommendationItem {
    pub rank: i32,
    pub ticker: String,
    pub name: String,
    pub rationale: [String; 3],
    pub risk_notes: Option<String>,
    pub confidence: Option<Binary64>,
}

/// The recommendations of one trading day.
#[derive(Debug, Clone)]
pub struct RecommendationSnapshot {
    pub as_of_date: Date,
    pub generated_at: Timestamp,
    pub items: Vec<RecommendationItem>,
}

/// A named numeric signal of a ticker on a day.
#[derive(Debug, Clone)]
pub struct Feature {
    pub name: String,
    pub value: Binary64,
}

/// A ticker that may be recommended, with its signals. It lives for one run and is
/// never stored. Its features are a map from names to values: no name occurs twice
/// in a candidate that is well formed.
#[derive(Debug, Clone)]
pub struct Candidate {
    pub ticker: String,
    pub name: String,
    pub features: Vec<Feature>,
}

/// Whether no name occurs twice among the features.
pub open spec fn distinct_names(features: Seq<Feature>) -> bool {
    forall|i: int, j: int|
        0 <= i < j < features.len() ==> (#[trigger] features[i]).name@ != (#[trigger] features[j]).name@
}

/// The first position at or after `from` of a feature with the name `name`.
pub open spec fn name_index_from(features: Seq<Feature>, name: Seq<char>, from: int) -> Option<int>
    decreases features.len() - from,
{
    if from < 0 || from >= features.len() {
        None
    } else if features[from].name@ == name {
        Some(from)
    } else {
        name_index_from(features, name, from + 1)
    }
}

/// The value of the feature `name`, where there is one.
pub open spec fn feature_value(features: Seq<Feature>, name: Seq<char>) -> Option<Binary64> {
    match name_index_from(features, name, 0) {
        Some(i) => Some(features[i].value),
        None => None,
    }
}

/// The features with `feature` put in: in the place of the feature of its name, or at
/// the end where no feature has its name.
pub open spec fn with_feature(features: Seq<Feature>, feature: Feature) -> Seq<Feature> {
    match name_index_from(features, feature.name@, 0) {
        Some(i) => features.update(i, feature),
        None => features.push(feature),
    }
}

/// What [`name_index_from`] finds: a feature of the name, with none of the name between
/// `from` and it; or that no feature from `from` on has the name.
pub proof fn lemma_name_index(features: Seq<Feature>, name: Seq<char>, from: int)
    requires
        0 <= from,
    ensures
        match name_index_from(features, name, from) {
            Some(i) => from <= i < features.len() && features[i].name@ == name && forall|j: int|
                from <= j < i ==> (#[trigger] features[j]).name@ != name,
            None => forall|j: int|
                from <= j < features.len() ==> (#[trigger] features[j]).name@ != name,
        },
    decreases features.len() - from,
{
    if from < features.len() && features[from].name@ != name {
        lemma_name_index(features, name, from + 1);
    }
}

/// Putting a feature in keeps the names distinct, gives its name its value and leaves
/// the values of the other names as they were.
pub proof fn lemma_with_feature(features: Seq<Feature>, feature: Feature, other: Seq<char>)
    ensures
        distinct_names(features) ==> distinct_names(with_feature(features, feature)),
        feature_value(with_feature(features, feature), feature.name@) == Some(feature.value),
        other != feature.name@ ==> feature_value(with_feature(features, feature), other)
            == feature_value(features, other),
{
    let after = with_feature(features, feature);
    lemma_name_index(features, feature.name@, 0);
    lemma_name_index(after, feature.name@, 0);
    lemma_name_index(features, other, 0);
    lemma_name_index(after, other, 0);
    match name_index_from(features, feature.name@, 0) {
        Some(i) => {
            assert(after[i].name@ == feature.name@);
            assert forall|j: int| 0 <= j < after.len() && j != i implies #[trigger] after[j]
                == features[j] by {}
            if other != feature.name@ {
                match name_index_from(features, other, 0) {
                    Some(k) => {
                        assert(after[k] == features[k]);
                    },
                    None => {},
                }
            }
        },
        None => {
            let n = features.len() as int;
            assert(after[n] == feature);
            assert forall|j: int| 0 <= j < n implies #[trigger] after[j] == features[j] by {}
            if other != feature.name@ {
                match name_index_from(features, other, 0) {
                    Some(k) => {
                        assert(after[k] == features[k]);
                    },
                    None => {},
                }
            }
        },
    }
}

/// Puts `value` under `name` into the features: in the place of the feature of that
/// name, or at the end where there is none.
pub fn set_feature(features: &mut Vec<Feature>, name: String, value: Binary64)
    ensures
        final(features)@ == with_feature(old(features)@, Feature { name, value }),
        distinct_names(old(features)@) ==> distinct_names(final(features)@),
{
    proof {
        lemma_with_feature(features@, Feature { name, value }, name@);
        lemma_name_index(features@, name@, 0);
    }
    let mut i: usize = 0;
    while i < features.len()
        invariant
            i <= features.len(),
            features@ == old(features)@,
            name_index_from(features@, name@, 0) == name_index_from(features@, name@, i as int),
        decreases features.len() - i,
    {
        if same_text(features[i].name.as_str(), name.as_str()) {
            features.set(i, Feature { name, value });
            return ;
        }
        i += 1;
    }
    features.push(Feature { name, value });
}

/// The value of the feature `name`, where there is one.
pub fn get_feature(features: &Vec<Feature>, name: &str) -> (r: Option<Binary64>)
    ensures
        r == feature_value(features@, name@),
{
    let mut i: usize = 0;
    while i < features.len()
        invariant
            i <= features.len(),
            name_index_from(features@, name@, 0) == name_index_from(features@, name@, i as int),
        decreases features.len() - i,
    {
        if same_text(features[i].name.as_str(), name) {
            return Some(features[i].value);
        }
        i += 1;
    }
    None
}

impl Candidate {
    /// Whether the candidate's features are a map: no name occurs twice.
    pub open spec fn wf(&self) -> bool {
        distinct_names(self.features@)
    }
}

/// Whether `s` is a text that trimming leaves as it is and that is not empty.
pub open spec fn clean_text(s: Seq<char>) -> bool {
    s.len() > 0 && trimmed(s) == s
}

/// Whether one of the first `upto` items has the rank `rank`.
pub open spec fn rank_seen(items: Seq<ItemView>, upto: int, rank: int) -> bool {
    exists|j: int| 0 <= j < upto && j < items.len() && #[trigger] items[j].rank == rank
}

/// The rules that a validated item meets by itself.
pub open spec fn valid_item(item: ItemView) -> bool {
    &&& 1 <= item.rank <= SNAPSHOT_SIZE
    &&& clean_text(item.ticker)
    &&& clean_text(item.name)
    &&& item.rationale.len() == RATIONALE_LINES
    &&& forall|k: int| 0 <= k < item.rationale.len() ==> clean_text(#[trigger] item.rationale[k])
    &&& item.risk_notes matches Some(s) ==> clean_text(s)
    &&& item.confidence matches Some(c) ==> unit_interval_bits(c.bits)
}

/// The rules of a validated snapshot: twenty valid items whose ranks are the numbers
/// 1 to 20, each once.
pub open spec fn valid_snapshot(s: SnapshotView) -> bool {
    &&& s.items.len() == SNAPSHOT_SIZE
    &&& forall|i: int| 0 <= i < s.items.len() ==> valid_item(#[trigger] s.items[i])
    &&& forall|i: int, j: int|
        0 <= i < j < s.items.len() ==> (#[trigger] s.items[i]).rank != (#[trigger] s.items[j]).rank
    &&& forall|r: int| 1 <= r <= SNAPSHOT_SIZE ==> #[trigger] rank_seen(s.items, s.items.len() as int, r)
}

impl View for RecommendationItem {
    type V = ItemView;

    open spec fn view(&self) -> ItemView {
        ItemView {
            rank: self.rank,
            ticker: self.ticker@,
            name: self.name@,
            rationale: self.rationale.deep_view(),
            risk_notes: self.risk_notes.deep_view(),
            confidence: self.confidence,
        }
    }
}

impl View for RecommendationSnapshot {
    type V = SnapshotView;

    open spec fn view(&self) -> SnapshotView {
        SnapshotView {
            as_of_date: self.as_of_date,
            generated_at: self.generated_at,
            items: Seq::new(self.items@.len(), |i: int| self.items@[i]@),
        }
    }
}

impl RecommendationSnapshot {
    /// Whether the snapshot meets the rules of a validated one.
    pub open spec fn wf(&self) -> bool {
        valid_snapshot(self@)
    }
}

} // verus!
