//! The contract that a model's output must meet before it becomes a snapshot.

use crate::domain::number::{unit_interval_bits, Binary64};
use crate::domain::recommendation::{
    clean_text, rank_seen, valid_item, valid_snapshot, ItemView, RecommendationItem,
    RecommendationSnapshot, SnapshotView, RATIONALE_LINES, SNAPSHOT_SIZE,
};
use crate::text::{
    blank, decimal_text, lemma_trimmed_idempotent, push_count, push_decimal, trim, trimmed,
};
use crate::time::{date_text, Date, Timestamp};
use vstd::prelude::*;
use vstd::string::StringExecFns;

verus! {

/// A snapshot as the model wrote it: nothing in it is trusted yet.
#[derive(Debug, Clone)]
pub struct LlmRecommendationSnapshot {
    pub as_of_date: Date,
    pub generated_at: Timestamp,
    pub items: Vec<LlmRecommendationItem>,
}

/// An item as the model wrote it.
#[derive(Debug, Clone)]
pub struct LlmRecommendationItem {
    pub rank: i32,
    pub ticker: String,
    pub name: String,
    pub rationale: Vec<String>,
    pub risk_notes: Option<String>,
    pub confidence: Option<Binary64>,
}

/// The rule that an output breaks, with the place where it does. `index` counts the
/// items from 0.
#[derive(Clone, Copy, Debug, PartialEq, Eq, Structural)]
pub enum ValidationError {
    /// The output is for another day than the one asked for.
    DateMismatch { expected: Date, got: Date },
    /// The output does not hold exactly twenty items.
    ItemCount { got: usize },
    /// A rank is not one of 1 to 20.
    RankOutOfRange { index: usize, rank: i32 },
    /// A rank was used by an earlier item.
    DuplicateRank { index: usize, rank: i32 },
    /// A ticker is empty once trimmed.
    EmptyTicker { index: usize },
    /// A name is empty once trimmed.
    EmptyName { index: usize },
    /// A rationale does not have exactly three lines.
    RationaleLength { index: usize, got: usize },
    /// A line of a rationale is empty once trimmed.
    EmptyRationaleLine { index: usize },
    /// A confidence lies outside the range from zero to one.
    ConfidenceOutOfRange { index: usize, value: Binary64 },
    /// No item has this rank.
    MissingRank { rank: i32 },
}

impl View for LlmRecommendationItem {
    type V = ItemView;

    open spec fn view(&self) -> ItemView {
        ItemView {
            rank: self.rank,
            ticker: self.ticker@,
            name: self.name@,
            rationale: self.rationale.deep_view(),
            risk_notes: self.risk_notes.deep_view(),
            confidence: self.confidence,
        }
    }
}

/// The views of raw items.
pub open spec fn item_views(items: Seq<LlmRecommendationItem>) -> Seq<ItemView> {
    Seq::new(items.len(), |i: int| items[i]@)
}

impl View for LlmRecommendationSnapshot {
    type V = SnapshotView;

    open spec fn view(&self) -> SnapshotView {
        SnapshotView {
            as_of_date: self.as_of_date,
            generated_at: self.generated_at,
            items: item_views(self.items@),
        }
    }
}

/// The rule that item `i` breaks, the earlier items being known; `None` where it
/// breaks none. The rules are tried in this order: that the rank is in range, that no
/// earlier item has it, ticker, name, the rationale's length, its lines, the
/// confidence.
pub open spec fn item_failure(items: Seq<ItemView>, i: int) -> Option<ValidationError> {
    let item = items[i];
    let index = i as usize;
    if !(1 <= item.rank <= SNAPSHOT_SIZE) {
        Some(ValidationError::RankOutOfRange { index, rank: item.rank })
    } else if rank_seen(items, i, item.rank as int) {
        Some(ValidationError::DuplicateRank { index, rank: item.rank })
    } else if blank(item.ticker) {
        Some(ValidationError::EmptyTicker { index })
    } else if blank(item.name) {
        Some(ValidationError::EmptyName { index })
    } else if item.rationale.len() != RATIONALE_LINES {
        Some(ValidationError::RationaleLength { index, got: item.rationale.len() as usize })
    } else if blank(item.rationale[0]) || blank(item.rationale[1]) || blank(item.rationale[2]) {
        Some(ValidationError::EmptyRationaleLine { index })
    } else {
        match item.confidence {
            Some(c) => if unit_interval_bits(c.bits) {
                None
            } else {
                Some(ValidationError::ConfidenceOutOfRange { index, value: c })
            },
            None => None,
        }
    }
}

/// The failure of the first among the first `n` items that breaks a rule.
pub open spec fn first_failure(items: Seq<ItemView>, n: int) -> Option<ValidationError>
    decreases n,
{
    if n <= 0 {
        None
    } else {
        match first_failure(items, n - 1) {
            Some(e) => Some(e),
            None => item_failure(items, n - 1),
        }
    }
}

/// The least rank from `from` to 20 that no item has.
pub open spec fn first_missing_rank(items: Seq<ItemView>, from: int) -> Option<int>
    decreases SNAPSHOT_SIZE + 1 - from,
{
    if from > SNAPSHOT_SIZE {
        None
    } else if !rank_seen(items, items.len() as int, from) {
        Some(from)
    } else {
        first_missing_rank(items, from + 1)
    }
}

/// A risk note as a snapshot keeps it: trimmed, and absent where nothing is left.
pub open spec fn normalized_note(note: Option<Seq<char>>) -> Option<Seq<char>> {
    match note {
        Some(s) => if blank(s) {
            None
        } else {
            Some(trimmed(s))
        },
        None => None,
    }
}

/// An item as a snapshot keeps it: its texts trimmed, an empty risk note dropped.
pub open spec fn normalized(item: ItemView) -> ItemView {
    ItemView {
        rank: item.rank,
        ticker: trimmed(item.ticker),
        name: trimmed(item.name),
        rationale: item.rationale.map_values(|s: Seq<char>| trimmed(s)),
        risk_notes: normalized_note(item.risk_notes),
        confidence: item.confidence,
    }
}

/// What validation makes of a raw output for the day `expected`: the first broken
/// rule, or the snapshot with its items normalized. The day is tried first, then the
/// number of items, then the items in turn, and last that every rank occurs.
pub open spec fn validate(raw: SnapshotView, expected: Date) -> Result<
    SnapshotView,
    ValidationError,
> {
    if raw.as_of_date != expected {
        Err(ValidationError::DateMismatch { expected, got: raw.as_of_date })
    } else if raw.items.len() != SNAPSHOT_SIZE {
        Err(ValidationError::ItemCount { got: raw.items.len() as usize })
    } else {
        match first_failure(raw.items, raw.items.len() as int) {
            Some(e) => Err(e),
            None => match first_missing_rank(raw.items, 1) {
                Some(r) => Err(ValidationError::MissingRank { rank: r as i32 }),
                None => Ok(
                    SnapshotView {
                        as_of_date: raw.as_of_date,
                        generated_at: raw.generated_at,
                        items: raw.items.map_values(|item: ItemView| normalized(item)),
                    },
                ),
            },
        }
    }
}

/// Where the first `n` items break no rule, none of them does.
pub proof fn lemma_no_failure_each(items: Seq<ItemView>, n: int, i: int)
    requires
        first_failure(items, n) is None,
        0 <= i < n,
    ensures
        item_failure(items, i) is None,
    decreases n,
{
    if i < n - 1 {
        lemma_no_failure_each(items, n - 1, i);
    }
}

/// Where none of the first `n` items breaks a rule, there is no first failure.
pub proof fn lemma_each_no_failure(items: Seq<ItemView>, n: int)
    requires
        forall|i: int| 0 <= i < n ==> item_failure(items, i) is None,
    ensures
        first_failure(items, n) is None,
    decreases n,
{
    if n > 0 {
        lemma_each_no_failure(items, n - 1);
    }
}

/// Where item `i` is the first to break a rule, its failure is the first among any
/// greater number of items.
pub proof fn lemma_first_failure_at(items: Seq<ItemView>, n: int, i: int)
    requires
        first_failure(items, i) is None,
        item_failure(items, i) is Some,
        0 <= i < n,
    ensures
        first_failure(items, n) == item_failure(items, i),
    decreases n,
{
    if i < n - 1 {
        lemma_first_failure_at(items, n - 1, i);
    }
}

/// Where no rank from `from` on is missing, every such rank occurs.
pub proof fn lemma_no_missing_rank(items: Seq<ItemView>, from: int, r: int)
    requires
        first_missing_rank(items, from) is None,
        from <= r <= SNAPSHOT_SIZE,
    ensures
        rank_seen(items, items.len() as int, r),
    decreases SNAPSHOT_SIZE + 1 - from,
{
    if from < r {
        lemma_no_missing_rank(items, from + 1, r);
    }
}

/// Where every rank from `from` on occurs, none is missing.
pub proof fn lemma_all_ranks_present(items: Seq<ItemView>, from: int)
    requires
        forall|r: int| from <= r <= SNAPSHOT_SIZE ==> rank_seen(items, items.len() as int, r),
    ensures
        first_missing_rank(items, from) is None,
    decreases SNAPSHOT_SIZE + 1 - from,
{
    if from <= SNAPSHOT_SIZE {
        lemma_all_ranks_present(items, from + 1);
    }
}

/// An item that breaks no rule is valid once normalized.
pub proof fn lemma_normalized_is_valid(items: Seq<ItemView>, i: int)
    requires
        0 <= i < items.len(),
        item_failure(items, i) is None,
    ensures
        valid_item(normalized(items[i])),
{
    let item = items[i];
    let n = normalized(item);
    lemma_trimmed_idempotent(item.ticker);
    lemma_trimmed_idempotent(item.name);
    assert forall|k: int| 0 <= k < n.rationale.len() implies clean_text(
        #[trigger] n.rationale[k],
    ) by {
        lemma_trimmed_idempotent(item.rationale[k]);
    }
    match item.risk_notes {
        Some(s) => {
            lemma_trimmed_idempotent(s);
        },
        None => {},
    }
}

/// Whatever validation accepts is a valid snapshot: twenty items, their ranks the
/// numbers 1 to 20 with none twice.
pub proof fn lemma_validated_is_valid(raw: SnapshotView, expected: Date)
    ensures
        validate(raw, expected) matches Ok(s) ==> valid_snapshot(s),
{
    if let Ok(s) = validate(raw, expected) {
        let n = raw.items.len() as int;
        assert(s.items.len() == SNAPSHOT_SIZE);
        assert forall|i: int| 0 <= i < s.items.len() implies valid_item(#[trigger] s.items[i]) by {
            lemma_no_failure_each(raw.items, n, i);
            lemma_normalized_is_valid(raw.items, i);
        }
        assert forall|i: int, j: int| 0 <= i < j < s.items.len() implies (#[trigger] s.items[i]).rank
            != (#[trigger] s.items[j]).rank by {
            lemma_no_failure_each(raw.items, n, j);
            if raw.items[i].rank == raw.items[j].rank {
                assert(rank_seen(raw.items, j, raw.items[j].rank as int));
            }
        }
        assert forall|r: int| 1 <= r <= SNAPSHOT_SIZE implies #[trigger] rank_seen(
            s.items,
            s.items.len() as int,
            r,
        ) by {
            lemma_no_missing_rank(raw.items, 1, r);
            let j = choose|j: int| 0 <= j < n && j < raw.items.len() && #[trigger] raw.items[j].rank == r;
            assert(s.items[j].rank == r);
        }
    }
}

/// Validating a valid snapshot again, for its own day, gives it back unchanged.
pub proof fn lemma_revalidation_is_identity(s: SnapshotView)
    requires
        valid_snapshot(s),
    ensures
        validate(s, s.as_of_date) == Ok::<SnapshotView, ValidationError>(s),
{
    let n = s.items.len() as int;
    assert forall|i: int| 0 <= i < n implies item_failure(s.items, i) is None by {
        let item = s.items[i];
        assert(valid_item(item));
        if rank_seen(s.items, i, item.rank as int) {
            let j = choose|j: int| 0 <= j < i && j < s.items.len() && #[trigger] s.items[j].rank == item.rank;
            assert(s.items[j].rank != s.items[i].rank);
        }
        assert(clean_text(item.rationale[0]));
        assert(clean_text(item.rationale[1]));
        assert(clean_text(item.rationale[2]));
    }
    lemma_each_no_failure(s.items, n);
    lemma_all_ranks_present(s.items, 1);
    let out = s.items.map_values(|item: ItemView| normalized(item));
    assert forall|i: int| 0 <= i < n implies #[trigger] out[i] == s.items[i] by {
        let item = s.items[i];
        assert(valid_item(item));
        let m = normalized(item);
        assert forall|k: int| 0 <= k < item.rationale.len() implies #[trigger] m.rationale[k]
            == item.rationale[k] by {
            assert(clean_text(item.rationale[k]));
        }
        assert(m.rationale =~= item.rationale);
        assert(m =~= item);
    }
    assert(out =~= s.items);
    let again = SnapshotView { as_of_date: s.as_of_date, generated_at: s.generated_at, items: out };
    assert(again =~= s);
}

/// Twenty items whose ranks are among 1 to 20 and differ from each other have every
/// rank: where no item breaks a rule, no rank is missing.
pub proof fn lemma_twenty_distinct_ranks_cover(items: Seq<ItemView>)
    requires
        items.len() == SNAPSHOT_SIZE,
        first_failure(items, items.len() as int) is None,
    ensures
        first_missing_rank(items, 1) is None,
{
    let n = items.len() as int;
    let ranks = Seq::new(items.len(), |i: int| items[i].rank as int);
    assert forall|i: int, j: int| 0 <= i < ranks.len() && 0 <= j < ranks.len() && i != j implies ranks[i]
        != ranks[j] by {
        let (lo, hi) = if i < j {
            (i, j)
        } else {
            (j, i)
        };
        lemma_no_failure_each(items, n, hi);
        if items[lo].rank == items[hi].rank {
            assert(rank_seen(items, hi, items[hi].rank as int));
        }
    }
    assert(ranks.no_duplicates());
    ranks.unique_seq_to_set();
    let all = vstd::set_lib::set_int_range(1, SNAPSHOT_SIZE + 1);
    vstd::set_lib::lemma_int_range(1, SNAPSHOT_SIZE + 1);
    assert forall|r: int| ranks.to_set().contains(r) implies all.contains(r) by {
        let i = choose|i: int| 0 <= i < ranks.len() && ranks[i] == r;
        lemma_no_failure_each(items, n, i);
    }
    assert(ranks.to_set().subset_of(all));
    vstd::set_lib::lemma_len_subset(ranks.to_set(), all);
    vstd::set_lib::lemma_subset_equality(ranks.to_set(), all);
    assert forall|r: int| 1 <= r <= SNAPSHOT_SIZE implies rank_seen(items, n, r) by {
        assert(all.contains(r));
        assert(ranks.to_set().contains(r));
        let i = choose|i: int| 0 <= i < ranks.len() && ranks[i] == r;
        assert(items[i].rank == r);
    }
    lemma_all_ranks_present(items, 1);
}

/// Validation never reports a missing rank: an output that gets as far as that has
/// every rank.
pub proof fn lemma_no_rank_is_missing(raw: SnapshotView, expected: Date)
    ensures
        !(validate(raw, expected) matches Err(ValidationError::MissingRank { .. })),
{
    if raw.as_of_date == expected && raw.items.len() == SNAPSHOT_SIZE && first_failure(
        raw.items,
        raw.items.len() as int,
    ) is None {
        lemma_twenty_distinct_ranks_cover(raw.items);
    } else if raw.as_of_date == expected && raw.items.len() == SNAPSHOT_SIZE {
        lemma_failure_is_of_an_item(raw.items, raw.items.len() as int);
    }
}

/// The first failure among items is never a missing rank.
pub proof fn lemma_failure_is_of_an_item(items: Seq<ItemView>, n: int)
    ensures
        !(first_failure(items, n) matches Some(ValidationError::MissingRank { .. })),
        !(first_failure(items, n) matches Some(ValidationError::DateMismatch { .. })),
        !(first_failure(items, n) matches Some(ValidationError::ItemCount { .. })),
    decreases n,
{
    if n > 0 {
        lemma_failure_is_of_an_item(items, n - 1);
    }
}

/// Whether `seen` records, for each rank, that one of the first `upto` items has it.
pub open spec fn seen_matches(seen: Seq<bool>, items: Seq<ItemView>, upto: int) -> bool {
    &&& seen.len() == SNAPSHOT_SIZE + 1
    &&& forall|r: int| 1 <= r <= SNAPSHOT_SIZE ==> seen[r] == #[trigger] rank_seen(items, upto, r)
}

impl LlmRecommendationItem {
    /// Holds item `index` of `items` to the rules and normalizes it. `seen` tells which
    /// ranks the earlier items have, and learns of this one's. A rank that is rejected is
    /// not recorded.
    fn validate_and_into_item(
        items: &Vec<LlmRecommendationItem>,
        index: usize,
        seen: &mut Vec<bool>,
    ) -> (r: Result<RecommendationItem, ValidationError>)
        requires
            index < items.len(),
            seen_matches(old(seen)@, item_views(items@), index as int),
        ensures
            match r {
                Ok(item) => {
                    &&& item_failure(item_views(items@), index as int) is None
                    &&& item@ == normalized(item_views(items@)[index as int])
                    &&& seen_matches(final(seen)@, item_views(items@), index + 1)
                },
                Err(e) => {
                    &&& item_failure(item_views(items@), index as int) == Some(e)
                    &&& e is RankOutOfRange || e is DuplicateRank ==> final(seen)@ == old(seen)@
                },
            },
    {
        let ghost views = item_views(items@);
        let raw = &items[index];
        assert(views[index as int] == raw@);
        let rank = raw.rank;
        if rank < 1 || rank > 20 {
            return Err(ValidationError::RankOutOfRange { index, rank });
        }
        let slot = rank as usize;
        if seen[slot] {
            return Err(ValidationError::DuplicateRank { index, rank });
        }
        seen.set(slot, true);
        proof {
            assert forall|r: int| 1 <= r <= SNAPSHOT_SIZE implies seen@[r] == #[trigger] rank_seen(
                views,
                index + 1,
                r,
            ) by {
                if rank_seen(views, index as int, r) {
                    let j = choose|j: int|
                        0 <= j < index && j < views.len() && #[trigger] views[j].rank == r;
                    assert(views[j].rank == r);
                }
                if r == rank {
                    assert(views[index as int].rank == r);
                }
                if rank_seen(views, index + 1, r) && r != rank {
                    let j = choose|j: int|
                        0 <= j < index + 1 && j < views.len() && #[trigger] views[j].rank == r;
                    assert(j < index);
                }
            }
        }
        let ticker = trim(raw.ticker.as_str());
        if ticker.as_str().is_empty() {
            return Err(ValidationError::EmptyTicker { index });
        }
        let name = trim(raw.name.as_str());
        if name.as_str().is_empty() {
            return Err(ValidationError::EmptyName { index });
        }
        if raw.rationale.len() != 3 {
            return Err(ValidationError::RationaleLength { index, got: raw.rationale.len() });
        }
        let r0 = trim(raw.rationale[0].as_str());
        let r1 = trim(raw.rationale[1].as_str());
        let r2 = trim(raw.rationale[2].as_str());
        if r0.as_str().is_empty() || r1.as_str().is_empty() || r2.as_str().is_empty() {
            return Err(ValidationError::EmptyRationaleLine { index });
        }
        if let Some(c) = raw.confidence {
            if !c.in_unit_interval() {
                return Err(ValidationError::ConfidenceOutOfRange { index, value: c });
            }
        }
        let risk_notes = match &raw.risk_notes {
            Some(s) => {
                let t = trim(s.as_str());
                if t.as_str().is_empty() {
                    None
                } else {
                    Some(t)
                }
            },
            None => None,
        };
        let item = RecommendationItem {
            rank,
            ticker,
            name,
            rationale: [r0, r1, r2],
            risk_notes,
            confidence: raw.confidence,
        };
        proof {
            let want = normalized(views[index as int]);
            assert(item@.rationale =~= want.rationale);
            assert(item@ =~= want);
        }
        Ok(item)
    }
}

impl LlmRecommendationSnapshot {
    /// Holds the output to the contract for the day `expected_as_of_date`. The result is
    /// the first broken rule, or the snapshot with its texts trimmed; a snapshot that
    /// comes back meets every rule of a validated one.
    pub fn validate_and_into_snapshot(self, expected_as_of_date: Date) -> (r: Result<
        RecommendationSnapshot,
        ValidationError,
    >)
        ensures
            match r {
                Ok(s) => validate(self@, expected_as_of_date) == Ok::<SnapshotView, ValidationError>(
                    s@,
                ) && s.wf(),
                Err(e) => validate(self@, expected_as_of_date) == Err::<SnapshotView, ValidationError>(
                    e,
                ),
            },
    {
        let ghost views = item_views(self.items@);
        if !self.as_of_date.same_day(&expected_as_of_date) {
            return Err(
                ValidationError::DateMismatch { expected: expected_as_of_date, got: self.as_of_date },
            );
        }
        if self.items.len() != 20 {
            return Err(ValidationError::ItemCount { got: self.items.len() });
        }
        let mut seen: Vec<bool> = Vec::new();
        let mut k: usize = 0;
        while k < 21
            invariant
                k <= 21,
                seen.len() == k,
                forall|r: int| 0 <= r < k ==> !seen@[r],
            decreases 21 - k,
        {
            seen.push(false);
            k += 1;
        }
        let mut items: Vec<RecommendationItem> = Vec::new();
        let mut i: usize = 0;
        while i < 20
            invariant
                i <= 20,
                self.items.len() == 20,
                self.as_of_date == expected_as_of_date,
                views == item_views(self.items@),
                items.len() == i,
                first_failure(views, i as int) is None,
                seen_matches(seen@, views, i as int),
                forall|j: int| 0 <= j < i ==> (#[trigger] items@[j])@ == normalized(views[j]),
            decreases 20 - i,
        {
            match LlmRecommendationItem::validate_and_into_item(&self.items, i, &mut seen) {
                Ok(item) => {
                    items.push(item);
                },
                Err(e) => {
                    proof {
                        lemma_first_failure_at(views, 20, i as int);
                    }
                    return Err(e);
                },
            }
            i += 1;
        }
        let mut rank: usize = 1;
        while rank <= 20
            invariant
                1 <= rank <= 21,
                views.len() == 20,
                self.as_of_date == expected_as_of_date,
                views == item_views(self.items@),
                first_failure(views, 20) is None,
                seen_matches(seen@, views, 20),
                first_missing_rank(views, 1) == first_missing_rank(views, rank as int),
            decreases 21 - rank,
        {
            if !seen[rank] {
                return Err(ValidationError::MissingRank { rank: rank as i32 });
            }
            rank += 1;
        }
        let snapshot = RecommendationSnapshot {
            as_of_date: self.as_of_date,
            generated_at: self.generated_at,
            items,
        };
        proof {
            let want = views.map_values(|item: ItemView| normalized(item));
            assert(snapshot@.items =~= want);
            assert(validate(self@, expected_as_of_date) is Ok);
            assert(snapshot@ =~= validate(self@, expected_as_of_date)->Ok_0);
            lemma_validated_is_valid(self@, expected_as_of_date);
        }
        Ok(snapshot)
    }
}

/// What [`ValidationError::message`] says of each failure.
pub open spec fn validation_error_text(e: ValidationError) -> Seq<char> {
    match e {
        ValidationError::DateMismatch { expected, got } => "LLM output as_of_date mismatch: expected "@
            + date_text(expected@) + ", got "@ + date_text(got@),
        ValidationError::ItemCount { got } => "LLM output must contain exactly 20 items (got "@
            + decimal_text(got as int) + ")"@,
        ValidationError::RankOutOfRange { index, rank } => "rank out of range: "@ + decimal_text(
            rank as int,
        ),
        ValidationError::DuplicateRank { index, rank } => "duplicate rank: "@ + decimal_text(
            rank as int,
        ),
        ValidationError::EmptyTicker { index } => "ticker must be non-empty"@,
        ValidationError::EmptyName { index } => "name must be non-empty"@,
        ValidationError::RationaleLength { index, got } => "rationale must have exactly 3 lines (got "@
            + decimal_text(got as int) + ")"@,
        ValidationError::EmptyRationaleLine { index } => "rationale lines must be non-empty"@,
        ValidationError::ConfidenceOutOfRange { index, value } => "confidence must be between 0 and 1"@,
        ValidationError::MissingRank { rank } => "missing rank "@ + decimal_text(rank as int)
            + " in LLM output"@,
    }
}

/// The field of the output that each failure is about.
pub open spec fn validation_error_field(e: ValidationError) -> Seq<char> {
    match e {
        ValidationError::DateMismatch { .. } => "as_of_date"@,
        ValidationError::ItemCount { .. } => "items"@,
        ValidationError::RankOutOfRange { .. } => "rank"@,
        ValidationError::DuplicateRank { .. } => "rank"@,
        ValidationError::EmptyTicker { .. } => "ticker"@,
        ValidationError::EmptyName { .. } => "name"@,
        ValidationError::RationaleLength { .. } => "rationale"@,
        ValidationError::EmptyRationaleLine { .. } => "rationale"@,
        ValidationError::ConfidenceOutOfRange { .. } => "confidence"@,
        ValidationError::MissingRank { .. } => "rank"@,
    }
}

impl ValidationError {
    /// The name of the field that the failure is about.
    pub fn field(&self) -> (r: &'static str)
        ensures
            r@ == validation_error_field(*self),
    {
        match self {
            ValidationError::DateMismatch { .. } => "as_of_date",
            ValidationError::ItemCount { .. } => "items",
            ValidationError::RankOutOfRange { .. } => "rank",
            ValidationError::DuplicateRank { .. } => "rank",
            ValidationError::EmptyTicker { .. } => "ticker",
            ValidationError::EmptyName { .. } => "name",
            ValidationError::RationaleLength { .. } => "rationale",
            ValidationError::EmptyRationaleLine { .. } => "rationale",
            ValidationError::ConfidenceOutOfRange { .. } => "confidence",
            ValidationError::MissingRank { .. } => "rank",
        }
    }

    /// The failure in words.
    pub fn message(&self) -> (r: String)
        ensures
            r@ == validation_error_text(*self),
    {
        match self {
            ValidationError::DateMismatch { expected, got } => {
                let mut out = String::from_str("LLM output as_of_date mismatch: expected ");
                out.append(expected.to_text().as_str());
                out.append(", got ");
                out.append(got.to_text().as_str());
                out
            },
            ValidationError::ItemCount { got } => {
                let mut out = String::from_str("LLM output must contain exactly 20 items (got ");
                push_count(&mut out, *got);
                out.append(")");
                out
            },
            ValidationError::RankOutOfRange { index, rank } => {
                let mut out = String::from_str("rank out of range: ");
                push_decimal(&mut out, *rank as i64);
                out
            },
            ValidationError::DuplicateRank { index, rank } => {
                let mut out = String::from_str("duplicate rank: ");
                push_decimal(&mut out, *rank as i64);
                out
            },
            ValidationError::EmptyTicker { .. } => String::from_str("ticker must be non-empty"),
            ValidationError::EmptyName { .. } => String::from_str("name must be non-empty"),
            ValidationError::RationaleLength { index, got } => {
                let mut out = String::from_str("rationale must have exactly 3 lines (got ");
                push_count(&mut out, *got);
                out.append(")");
                out
            },
            ValidationError::EmptyRationaleLine { .. } => String::from_str(
                "rationale lines must be non-empty",
            ),
            ValidationError::ConfidenceOutOfRange { .. } => String::from_str(
                "confidence must be between 0 and 1",
            ),
            ValidationError::MissingRank { rank } => {
                let mut out = String::from_str("missing rank ");
                push_decimal(&mut out, *rank as i64);
                out.append(" in LLM output");
                out
            },
        }
    }
}

} // verus!
