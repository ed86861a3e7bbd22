//! The generation client: what is sent to the model and what is made of its replies.

pub mod anthropic;
pub mod error;
pub mod json;

use crate::domain::recommendation::Candidate;
use crate::text::{decimal_text, push_count};
use crate::time::Date;
use vstd::prelude::*;
use vstd::string::StringExecFns;

verus! {

/// The fewest candidates that a generation takes.
pub const MIN_CANDIDATES: usize = 200;

/// The most candidates that a generation takes.
pub const MAX_CANDIDATES: usize = 500;

/// Whether a universe of `n` candidates has an accepted size.
pub open spec fn candidate_count_ok(n: int) -> bool {
    MIN_CANDIDATES <= n <= MAX_CANDIDATES
}

/// What a generation works on: a day and its candidates, 200 to 500 of them.
#[derive(Debug, Clone)]
pub struct GenerateInput {
    pub as_of_date: Date,
    pub candidates: Vec<Candidate>,
}

/// A universe of a size that no generation takes.
#[derive(Clone, Copy, Debug, PartialEq, Eq, Structural)]
pub struct CandidateCountError {
    pub got: usize,
}

/// What [`CandidateCountError::message`] says.
pub open spec fn candidate_count_text(e: CandidateCountError) -> Seq<char> {
    "candidate universe must be 200..=500 (got "@ + decimal_text(e.got as int) + ")"@
}

impl CandidateCountError {
    /// The error in words.
    pub fn message(&self) -> (r: String)
        ensures
            r@ == candidate_count_text(*self),
    {
        let mut out = String::from_str("candidate universe must be 200..=500 (got ");
        push_count(&mut out, self.got);
        out.append(")");
        out
    }
}

impl GenerateInput {
    /// Whether the input has an accepted number of candidates.
    pub open spec fn wf(&self) -> bool {
        candidate_count_ok(self.candidates@.len() as int)
    }

    /// The input for `as_of_date` with these candidates, where they are 200 to 500.
    pub fn try_new(as_of_date: Date, candidates: Vec<Candidate>) -> (r: Result<
        GenerateInput,
        CandidateCountError,
    >)
        ensures
            match r {
                Ok(input) => {
                    &&& candidate_count_ok(candidates@.len() as int)
                    &&& input.as_of_date == as_of_date
                    &&& input.candidates == candidates
                    &&& input.wf()
                },
                Err(e) => !candidate_count_ok(candidates@.len() as int) && e.got
                    == candidates@.len(),
            },
    {
        let n = candidates.len();
        if n < MIN_CANDIDATES || n > MAX_CANDIDATES {
            return Err(CandidateCountError { got: n });
        }
        Ok(GenerateInput { as_of_date, candidates })
    }
}

/// The model providers.
#[derive(Clone, Copy, Debug, PartialEq, Eq, Structural)]
pub enum Provider {
    Anthropic,
    OpenAI,
}

/// The name of each provider.
pub open spec fn provider_text(p: Provider) -> Seq<char> {
    match p {
        Provider::Anthropic => "Anthropic"@,
        Provider::OpenAI => "OpenAI"@,
    }
}

impl Provider {
    /// The provider's name.
    pub fn name(&self) -> (r: &'static str)
        ensures
            r@ == provider_text(*self),
    {
        match self {
            Provider::Anthropic => "Anthropic",
            Provider::OpenAI => "OpenAI",
        }
    }
}

} // verus!
