//! The failure of a generation, with what is needed to diagnose it.

use crate::llm::{provider_text, Provider};
use vstd::prelude::*;
use vstd::string::StringExecFns;

verus! {

/// The step of a generation at which it failed.
#[derive(Clone, Copy, Debug, PartialEq, Eq, Structural)]
pub enum Stage {
    /// The request did not reach the provider, or its reply could not be read.
    Transport,
    /// The provider answered with a status that is no success.
    Http,
    /// No reply met the contract, the repairs included.
    ParseAfterRepair,
}

/// The name of each stage.
pub open spec fn stage_text(s: Stage) -> Seq<char> {
    match s {
        Stage::Transport => "transport"@,
        Stage::Http => "http"@,
        Stage::ParseAfterRepair => "parse_after_repair"@,
    }
}

impl Stage {
    /// The stage's name.
    pub fn name(&self) -> (r: &'static str)
        ensures
            r@ == stage_text(*self),
    {
        match self {
            Stage::Transport => "transport",
            Stage::Http => "http",
            Stage::ParseAfterRepair => "parse_after_repair",
        }
    }
}

/// A failed generation: who was asked, where it failed and why, and the output that
/// could be recovered.
#[derive(Debug, Clone)]
pub struct LlmDiagnosticsError {
    pub provider: Provider,
    pub stage: Stage,
    pub detail: String,
    pub raw_output: Option<String>,
    pub raw_response_json: Option<String>,
}

/// What [`LlmDiagnosticsError::message`] says.
pub open spec fn diagnostics_text(provider: Provider, stage: Stage, detail: Seq<char>) -> Seq<
    char,
> {
    "LLM error (provider="@ + provider_text(provider) + ", stage="@ + stage_text(stage) + "): "@
        + detail
}

impl LlmDiagnosticsError {
    /// The failure in one line.
    pub fn message(&self) -> (r: String)
        ensures
            r@ == diagnostics_text(self.provider, self.stage, self.detail@),
    {
        let mut out = String::from_str("LLM error (provider=");
        out.append(self.provider.name());
        out.append(", stage=");
        out.append(self.stage.name());
        out.append("): ");
        out.append(self.detail.as_str());
        out
    }
}

} // verus!
