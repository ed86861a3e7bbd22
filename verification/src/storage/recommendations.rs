//! The rows of a snapshot, and what the store's answers mean.

use crate::domain::number::Binary64;
use crate::domain::recommendation::{
    ItemView, RecommendationItem, RecommendationSnapshot, SNAPSHOT_SIZE,
};
use crate::llm::error::LlmDiagnosticsError;
use crate::text::same_text;
use vstd::prelude::*;

verus! {

/// The code by which the store reports that a row would break a uniqueness
/// constraint.
pub const UNIQUE_VIOLATION: &'static str = "23505";

/// An error that the store answered a write with: its code, where it gave one, and
/// what it said.
#[derive(Debug, Clone)]
pub struct PersistError {
    pub sqlstate: Option<String>,
    pub message: String,
}

/// Whether a code of the store reports a broken uniqueness constraint.
pub open spec fn unique_violation(sqlstate: Option<String>) -> bool {
    sqlstate matches Some(code) && code@ == UNIQUE_VIOLATION@
}

/// Whether the store refused a write because a row like it exists: for a snapshot,
/// that the day has its successful snapshot already.
pub fn is_unique_violation(err: &PersistError) -> (r: bool)
    ensures
        r == unique_violation(err.sqlstate),
{
    match &err.sqlstate {
        Some(code) => same_text(code.as_str(), UNIQUE_VIOLATION),
        None => false,
    }
}

/// The output of a failed generation as the failure's row keeps it.
#[derive(Debug, Clone)]
pub enum RawResponse {
    /// The body of the provider's reply.
    Json(String),
    /// An output that may be no JSON at all.
    Text(String),
}

/// What a failure's row keeps of a failed generation: the body of the last reply,
/// or else the output that was recovered.
pub open spec fn raw_of_failure(e: LlmDiagnosticsError) -> Option<RawResponse> {
    match e.raw_response_json {
        Some(body) => Some(RawResponse::Json(body)),
        None => match e.raw_output {
            Some(output) => Some(RawResponse::Text(output)),
            None => None,
        },
    }
}

/// What a failure's row keeps of a failed generation.
pub fn failure_raw_response(e: LlmDiagnosticsError) -> (r: Option<RawResponse>)
    ensures
        r == raw_of_failure(e),
{
    match e.raw_response_json {
        Some(body) => Some(RawResponse::Json(body)),
        None => match e.raw_output {
            Some(output) => Some(RawResponse::Text(output)),
            None => None,
        },
    }
}

/// An item as the store holds it: the rationale is a list of any length there.
#[derive(Debug, Clone)]
pub struct ItemRow {
    pub rank: i32,
    pub ticker: String,
    pub name: String,
    pub rationale: Vec<String>,
    pub risk_notes: Option<String>,
    pub confidence: Option<Binary64>,
}

impl View for ItemRow {
    type V = ItemView;

    open spec fn view(&self) -> ItemView {
        ItemView {
            rank: self.rank,
            ticker: self.ticker@,
            name: self.name@,
            rationale: self.rationale.deep_view(),
            risk_notes: self.risk_notes.deep_view(),
            confidence: self.confidence,
        }
    }
}

/// The item of a row, where the row's rationale has its three lines.
pub fn item_from_row(row: ItemRow) -> (r: Option<RecommendationItem>)
    ensures
        match r {
            Some(item) => row@.rationale.len() == 3 && item@ == row@,
            None => row@.rationale.len() != 3,
        },
{
    if row.rationale.len() != 3 {
        return None;
    }
    let r0 = row.rationale[0].clone();
    let r1 = row.rationale[1].clone();
    let r2 = row.rationale[2].clone();
    let item = RecommendationItem {
        rank: row.rank,
        ticker: row.ticker,
        name: row.name,
        rationale: [r0, r1, r2],
        risk_notes: row.risk_notes,
        confidence: row.confidence,
    };
    assert(item@.rationale =~= row@.rationale);
    assert(item@ =~= row@);
    Some(item)
}

/// The row of an item.
pub fn item_row(item: &RecommendationItem) -> (r: ItemRow)
    ensures
        r@ == item@,
{
    let mut rationale: Vec<String> = Vec::new();
    rationale.push(item.rationale[0].clone());
    rationale.push(item.rationale[1].clone());
    rationale.push(item.rationale[2].clone());
    let row = ItemRow {
        rank: item.rank,
        ticker: item.ticker.clone(),
        name: item.name.clone(),
        rationale,
        risk_notes: item.risk_notes.clone(),
        confidence: item.confidence,
    };
    assert(row@.rationale =~= item@.rationale);
    assert(row@ =~= item@);
    row
}

/// The rows of a snapshot's items, in the snapshot's order, where the snapshot has its
/// twenty items. A snapshot of another size is not written.
pub fn item_rows(snapshot: &RecommendationSnapshot) -> (r: Option<Vec<ItemRow>>)
    ensures
        match r {
            Some(rows) => {
                &&& snapshot.items@.len() == SNAPSHOT_SIZE
                &&& rows@.len() == SNAPSHOT_SIZE
                &&& forall|i: int| 0 <= i < rows@.len() ==> (#[trigger] rows@[i])@ == snapshot@.items[i]
            },
            None => snapshot.items@.len() != SNAPSHOT_SIZE,
        },
{
    if snapshot.items.len() != SNAPSHOT_SIZE {
        return None;
    }
    let mut rows: Vec<ItemRow> = Vec::new();
    let mut i: usize = 0;
    while i < snapshot.items.len()
        invariant
            i <= snapshot.items.len(),
            rows@.len() == i,
            forall|j: int| 0 <= j < i ==> (#[trigger] rows@[j])@ == snapshot@.items[j],
        decreases snapshot.items.len() - i,
    {
        rows.push(item_row(&snapshot.items[i]));
        i += 1;
    }
    Some(rows)
}

} // verus!
