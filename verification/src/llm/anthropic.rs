//! The protocol of one generation: a request that forces a structured reply, one
//! retry with a larger bound where the reply was cut off, and a bounded number of
//! repair requests where a reply does not meet the contract.
//!
//! The calls to the provider and the decoding of JSON are made by the caller. It
//! performs what each [`Step`] asks for and hands back what came of it.

use crate::domain::contract::{
    validate, validation_error_text, LlmRecommendationSnapshot, ValidationError,
};
use crate::domain::recommendation::{RecommendationSnapshot, SnapshotView};
use crate::llm::error::{LlmDiagnosticsError, Stage};
use crate::llm::json::{json_payload, text_payload};
use crate::llm::{GenerateInput, Provider};
use crate::text::same_text;
use crate::time::{date_text, Date};
use vstd::prelude::*;
use vstd::string::StringExecFns;

verus! {

/// The bound on a reply's size where none is configured.
pub const DEFAULT_MAX_TOKENS: u32 = 2048;

/// The least bound that the retry after a cut-off reply asks for.
pub const MIN_RETRY_TOKENS: u32 = 4096;

/// How many repair requests one generation may send.
pub const MAX_REPAIRS: u32 = 2;

/// The name of the tool through which the model hands over a snapshot.
pub const TOOL_NAME_EMIT_SNAPSHOT: &'static str = "emit_snapshot";

/// What the tool is said to be for.
pub const TOOL_DESCRIPTION: &'static str =
    "Emit the final recommendation snapshot as structured JSON";

/// The JSON schema of the tool's input: a snapshot of exactly twenty items, each with
/// its six keys, of which the risk note and the confidence may be null.
pub const TOOL_INPUT_SCHEMA: &'static str = "{\"type\":\"object\",\"additionalProperties\":false,\"required\":[\"as_of_date\",\"generated_at\",\"items\"],\"properties\":{\"as_of_date\":{\"type\":\"string\"},\"generated_at\":{\"type\":\"string\"},\"items\":{\"type\":\"array\",\"minItems\":20,\"maxItems\":20,\"items\":{\"type\":\"object\",\"additionalProperties\":false,\"required\":[\"rank\",\"ticker\",\"name\",\"rationale\",\"risk_notes\",\"confidence\"],\"properties\":{\"rank\":{\"type\":\"integer\"},\"ticker\":{\"type\":\"string\"},\"name\":{\"type\":\"string\"},\"rationale\":{\"type\":\"array\",\"minItems\":3,\"maxItems\":3,\"items\":{\"type\":\"string\"}},\"risk_notes\":{\"type\":[\"string\",\"null\"]},\"confidence\":{\"type\":[\"number\",\"null\"]}}}}}}";

/// The stop reason by which the provider reports a reply cut off at the bound.
pub const STOP_REASON_MAX_TOKENS: &'static str = "max_tokens";

/// The instructions that every request carries.
pub const SYSTEM_PROMPT: &'static str = "You are a stock recommendation engine for KRX.\nReturn ONLY valid JSON. Do not wrap in markdown. Do not include any extra keys.\nNo trailing commas. No comments. No semicolons. Use double quotes for all JSON strings.\nOutput schema:\n{\n  \"as_of_date\": \"YYYY-MM-DD\",\n  \"generated_at\": \"ISO-8601\",\n  \"items\": [\n    {\n      \"rank\": 1,\n      \"ticker\": \"KRX:005930\",\n      \"name\": \"삼성전자\",\n      \"rationale\": [\"line1\", \"line2\", \"line3\"],\n      \"risk_notes\": \"optional\",\n      \"confidence\": 0.0\n    }\n  ]\n}\nRules:\n- items must have exactly 20 entries, ranks 1..20 unique\n- rationale must have exactly 3 short lines per item\n- risk_notes key MUST be present (use null if none)\n- confidence key MUST be present (use null if unknown)\n- confidence (if present) must be in [0, 1]\n- Use only the provided candidates (ticker/name)";

/// The first request's prompt up to the day.
pub const USER_PROMPT_HEAD: &'static str =
    "Task: Select the top 20 short-term (<= 1 week) recommendations for as_of_date=";

/// The first request's prompt between the day and the candidates.
pub const USER_PROMPT_MID: &'static str = ".\n\nCandidates JSON:\n";

/// A repair request's prompt up to the day.
pub const REPAIR_PROMPT_HEAD: &'static str = "Your previous message was NOT valid JSON.\n\nTASK: Output ONLY a single JSON object that exactly matches the schema and rules.\n- Do NOT include any markdown, prose, or code fences.\n- Do NOT include trailing commas, comments, or semicolons.\n- Use double quotes for all JSON strings.\n- The JSON MUST have as_of_date=\"";

/// A repair request's prompt between the day and the earlier output: the rest of
/// the rules and the schema.
pub const REPAIR_PROMPT_MID: &'static str = "\".\n- The JSON MUST have exactly 20 items with ranks 1..20.\n- Each item MUST include keys: rank, ticker, name, rationale, risk_notes, confidence.\n- rationale MUST have exactly 3 strings.\n\nSCHEMA:\n{\n  \"as_of_date\": \"YYYY-MM-DD\",\n  \"generated_at\": \"ISO-8601\",\n  \"items\": [\n    {\n      \"rank\": 1,\n      \"ticker\": \"KRX:005930\",\n      \"name\": \"삼성전자\",\n      \"rationale\": [\"line1\", \"line2\", \"line3\"],\n      \"risk_notes\": null,\n      \"confidence\": null\n    }\n  ]\n}\n\nINVALID OUTPUT (for reference only; DO NOT copy verbatim):\n";

/// What the detail of a failure after the last repair begins with.
pub const FINAL_ERROR_PREFIX: &'static str = "final_error=";

/// What is said of an output that is no JSON of the snapshot's form, before the
/// output itself.
pub const NOT_JSON_PREFIX: &'static str = "LLM output is not valid JSON for snapshot schema: ";

/// What the detail of a failed call begins with, before the status.
pub const STATUS_PREFIX: &'static str = "status=";

/// One part of a reply.
#[derive(Debug, Clone)]
pub enum ContentBlock {
    /// Free text.
    Text { text: String },
    /// A structured return: the JSON text handed to the tool `name`.
    ToolUse { id: String, name: String, input: String },
    /// The model's reasoning.
    Thinking { thinking: String, signature: String },
    /// Reasoning that the provider withheld.
    RedactedThinking { data: String },
    /// A part of a kind that is not known.
    Unknown,
}

/// A reply of the provider: the body as it came, its parts, and why it stopped.
#[derive(Debug, Clone)]
pub struct ModelReply {
    pub raw: String,
    pub content: Vec<ContentBlock>,
    pub stop_reason: Option<String>,
}

/// What is to be sent. Every request goes to the configured model and forces the
/// tool [`TOOL_NAME_EMIT_SNAPSHOT`] with the input schema [`TOOL_INPUT_SCHEMA`]; the
/// sender adds both.
#[derive(Debug, Clone)]
pub struct MessageRequest {
    pub max_tokens: u32,
    pub system: String,
    pub user: String,
}

/// A generation that has sent a request and waits for the reply.
#[derive(Debug, Clone)]
pub struct AwaitingReply {
    pub as_of_date: Date,
    pub max_tokens: u32,
    /// The prompt of the request that was sent.
    pub user_prompt: String,
    /// Whether a cut-off reply may still be answered by a retry with a larger bound.
    pub may_retry_truncated: bool,
    /// How many repair requests were sent so far.
    pub repairs_sent: u32,
}

/// A generation that has a reply and waits for its payload to be decoded.
#[derive(Debug, Clone)]
pub struct AwaitingDecode {
    pub as_of_date: Date,
    pub max_tokens: u32,
    pub repairs_sent: u32,
    /// The body of the reply.
    pub raw_response: String,
    /// The output of the reply: the tool's input, or else its text.
    pub output: String,
    /// The JSON text to decode.
    pub payload: String,
}

/// A snapshot and the body of the reply that it was read from.
#[derive(Debug, Clone)]
pub struct Generated {
    pub snapshot: RecommendationSnapshot,
    pub raw_response: String,
}

/// What a generation asks of its caller next.
#[derive(Debug)]
pub enum Step {
    /// Send `request` and hand the reply to [`AwaitingReply::on_reply`].
    Send { state: AwaitingReply, request: MessageRequest },
    /// Decode `state.payload` and hand the result to [`AwaitingDecode::on_decoded`].
    Decode { state: AwaitingDecode },
    /// The generation is over.
    Done(Result<Generated, LlmDiagnosticsError>),
}

/// The text of the first `n` parts: the text parts, joined by line breaks. A part of
/// another kind adds nothing, and no line break goes before the first text.
pub open spec fn joined_text(blocks: Seq<ContentBlock>, n: int) -> Seq<char>
    decreases n,
{
    if n <= 0 {
        Seq::empty()
    } else {
        let before = joined_text(blocks, n - 1);
        match blocks[n - 1] {
            ContentBlock::Text { text } => if before.len() > 0 {
                before + seq!['\n'] + text@
            } else {
                text@
            },
            _ => before,
        }
    }
}

/// Whether `block` is a structured return through the snapshot tool.
pub open spec fn is_snapshot_tool_use(block: ContentBlock) -> bool {
    block matches ContentBlock::ToolUse { name, .. } && name@ == TOOL_NAME_EMIT_SNAPSHOT@
}

/// The input of the first structured return at or after part `from`.
pub open spec fn tool_input_from(blocks: Seq<ContentBlock>, from: int) -> Option<Seq<char>>
    decreases blocks.len() - from,
{
    if from < 0 || from >= blocks.len() {
        None
    } else if is_snapshot_tool_use(blocks[from]) {
        Some(blocks[from]->input@)
    } else {
        tool_input_from(blocks, from + 1)
    }
}

/// The output of a reply: the input of its first structured return, or else its text.
pub open spec fn output_text(blocks: Seq<ContentBlock>) -> Seq<char> {
    match tool_input_from(blocks, 0) {
        Some(input) => input,
        None => joined_text(blocks, blocks.len() as int),
    }
}

/// The JSON text to decode from a reply: the input of its first structured return as
/// it is, or else the payload of its text.
pub open spec fn payload_text(blocks: Seq<ContentBlock>) -> Seq<char> {
    match tool_input_from(blocks, 0) {
        Some(input) => input,
        None => text_payload(joined_text(blocks, blocks.len() as int)),
    }
}

/// The bound that the retry after a cut-off reply asks for: twice the bound, at
/// least [`MIN_RETRY_TOKENS`], at most what the type holds.
pub open spec fn bumped_tokens(max_tokens: u32) -> u32 {
    if 2 * max_tokens > u32::MAX {
        u32::MAX
    } else if 2 * max_tokens < MIN_RETRY_TOKENS {
        MIN_RETRY_TOKENS
    } else {
        (2 * max_tokens) as u32
    }
}

/// Whether a stop reason reports a reply cut off at the bound.
pub open spec fn truncated(stop_reason: Option<String>) -> bool {
    stop_reason matches Some(s) && s@ == STOP_REASON_MAX_TOKENS@
}

/// The prompt of the first request.
pub open spec fn user_prompt_text(date: Date, candidates_json: Seq<char>) -> Seq<char> {
    USER_PROMPT_HEAD@ + date_text(date@) + USER_PROMPT_MID@ + candidates_json
}

/// The prompt of a repair request.
pub open spec fn repair_prompt_text(previous_output: Seq<char>, date: Date) -> Seq<char> {
    REPAIR_PROMPT_HEAD@ + date_text(date@) + REPAIR_PROMPT_MID@ + previous_output
}

/// How many more requests a waiting generation can send at most.
pub open spec fn sends_left(may_retry_truncated: bool, repairs_sent: u32) -> int {
    (if may_retry_truncated {
        1int
    } else {
        0int
    }) + (if repairs_sent < MAX_REPAIRS {
        MAX_REPAIRS - repairs_sent
    } else {
        0int
    })
}

/// What becomes of a decoded payload: the validated snapshot, or what is wrong with
/// it in words. A payload that could not be decoded is reported with its text.
pub open spec fn decode_outcome(
    decoded: Option<LlmRecommendationSnapshot>,
    payload: Seq<char>,
    date: Date,
) -> Result<SnapshotView, Seq<char>> {
    match decoded {
        Some(raw) => match validate(raw@, date) {
            Ok(s) => Ok(s),
            Err(e) => Err(validation_error_text(e)),
        },
        None => Err(NOT_JSON_PREFIX@ + payload),
    }
}

/// The instructions that every request carries.
pub fn system_prompt() -> (r: String)
    ensures
        r@ == SYSTEM_PROMPT@,
{
    String::from_str(SYSTEM_PROMPT)
}

/// The prompt of the first request: the task for `as_of_date`, then the candidates as
/// JSON.
pub fn user_prompt(as_of_date: Date, candidates_json: &str) -> (r: String)
    ensures
        r@ == user_prompt_text(as_of_date, candidates_json@),
{
    let mut out = String::from_str(USER_PROMPT_HEAD);
    out.append(as_of_date.to_text().as_str());
    out.append(USER_PROMPT_MID);
    out.append(candidates_json);
    out
}

/// The prompt of a repair request: the rules with the day that is expected, the
/// schema, and the earlier output for reference.
pub fn repair_prompt(previous_output: &str, expected_as_of_date: Date) -> (r: String)
    ensures
        r@ == repair_prompt_text(previous_output@, expected_as_of_date),
{
    let mut out = String::from_str(REPAIR_PROMPT_HEAD);
    out.append(expected_as_of_date.to_text().as_str());
    out.append(REPAIR_PROMPT_MID);
    out.append(previous_output);
    out
}

/// The text of a reply: its text parts, joined by line breaks.
pub fn response_text(content: &Vec<ContentBlock>) -> (r: String)
    ensures
        r@ == joined_text(content@, content@.len() as int),
{
    let mut out = String::new();
    let mut i: usize = 0;
    while i < content.len()
        invariant
            i <= content.len(),
            out@ == joined_text(content@, i as int),
        decreases content.len() - i,
    {
        match &content[i] {
            ContentBlock::Text { text } => {
                if !out.as_str().is_empty() {
                    proof {
                        reveal_strlit("\n");
                    }
                    out.append("\n");
                    assert(out@ =~= joined_text(content@, i as int) + seq!['\n']);
                }
                out.append(text.as_str());
                assert(out@ =~= joined_text(content@, i + 1));
            },
            _ => {},
        }
        i += 1;
    }
    out
}

/// The input of the first structured return through the snapshot tool, if the reply
/// has one.
pub fn response_tool_snapshot(content: &Vec<ContentBlock>) -> (r: Option<String>)
    ensures
        match r {
            Some(input) => tool_input_from(content@, 0) == Some(input@),
            None => tool_input_from(content@, 0) is None,
        },
{
    let mut i: usize = 0;
    while i < content.len()
        invariant
            i <= content.len(),
            tool_input_from(content@, 0) == tool_input_from(content@, i as int),
        decreases content.len() - i,
    {
        match &content[i] {
            ContentBlock::ToolUse { id, name, input } => {
                if same_text(name.as_str(), TOOL_NAME_EMIT_SNAPSHOT) {
                    return Some(input.clone());
                }
            },
            _ => {},
        }
        i += 1;
    }
    None
}

/// The bound that the retry after a cut-off reply asks for.
pub fn bump_max_tokens(max_tokens: u32) -> (r: u32)
    ensures
        r == bumped_tokens(max_tokens),
        r >= MIN_RETRY_TOKENS,
        r >= max_tokens,
{
    let doubled: u32 = if max_tokens > u32::MAX / 2 {
        u32::MAX
    } else {
        max_tokens * 2
    };
    if doubled < MIN_RETRY_TOKENS {
        MIN_RETRY_TOKENS
    } else {
        doubled
    }
}

/// Whether the provider reports that the reply was cut off at the bound.
pub fn is_truncated(stop_reason: &Option<String>) -> (r: bool)
    ensures
        r == truncated(*stop_reason),
{
    match stop_reason {
        Some(s) => same_text(s.as_str(), STOP_REASON_MAX_TOKENS),
        None => false,
    }
}

/// The failure of a call that the provider answered with a status that is no success.
/// `status` is the status as the caller writes it; `body` is what came with it.
pub fn http_failure(status: &str, body: String) -> (r: LlmDiagnosticsError)
    ensures
        r.provider == Provider::Anthropic,
        r.stage == Stage::Http,
        r.detail@ == STATUS_PREFIX@ + status@,
        r.raw_output matches Some(o) && o@ == body@,
        r.raw_response_json is None,
{
    let mut detail = String::from_str(STATUS_PREFIX);
    detail.append(status);
    LlmDiagnosticsError {
        provider: Provider::Anthropic,
        stage: Stage::Http,
        detail,
        raw_output: Some(body),
        raw_response_json: None,
    }
}

/// The failure of a call that got no answer that could be read.
pub fn transport_failure(detail: String) -> (r: LlmDiagnosticsError)
    ensures
        r.provider == Provider::Anthropic,
        r.stage == Stage::Transport,
        r.detail@ == detail@,
        r.raw_output is None,
        r.raw_response_json is None,
{
    LlmDiagnosticsError {
        provider: Provider::Anthropic,
        stage: Stage::Transport,
        detail,
        raw_output: None,
        raw_response_json: None,
    }
}

/// Begins a generation: the first request, with the bound `max_tokens`, asks for the
/// recommendations of the input's day among the candidates, which `candidates_json`
/// holds as JSON.
pub fn start(input: &GenerateInput, candidates_json: &str, max_tokens: u32) -> (r: Step)
    ensures
        r matches Step::Send { state, request } && {
            &&& request.max_tokens == max_tokens
            &&& request.system@ == SYSTEM_PROMPT@
            &&& request.user@ == user_prompt_text(input.as_of_date, candidates_json@)
            &&& state.as_of_date == input.as_of_date
            &&& state.max_tokens == max_tokens
            &&& state.user_prompt@ == request.user@
            &&& state.may_retry_truncated
            &&& state.repairs_sent == 0
        },
{
    let user = user_prompt(input.as_of_date, candidates_json);
    let state = AwaitingReply {
        as_of_date: input.as_of_date,
        max_tokens,
        user_prompt: user.clone(),
        may_retry_truncated: true,
        repairs_sent: 0,
    };
    Step::Send { state, request: MessageRequest { max_tokens, system: system_prompt(), user } }
}

impl AwaitingReply {
    /// Takes the reply to the request that was sent. A reply that was cut off at the
    /// bound is answered, once, by the same request with a larger bound. Any other
    /// reply is the one to decode: its structured return where it has one, or else
    /// the JSON inside its text.
    pub fn on_reply(self, reply: ModelReply) -> (r: Step)
        ensures
            if self.may_retry_truncated && truncated(reply.stop_reason) {
                r matches Step::Send { state, request } && {
                    &&& request.max_tokens == bumped_tokens(self.max_tokens)
                    &&& request.system@ == SYSTEM_PROMPT@
                    &&& request.user@ == self.user_prompt@
                    &&& state.as_of_date == self.as_of_date
                    &&& state.max_tokens == self.max_tokens
                    &&& state.user_prompt@ == self.user_prompt@
                    &&& !state.may_retry_truncated
                    &&& state.repairs_sent == self.repairs_sent
                    &&& sends_left(state.may_retry_truncated, state.repairs_sent) < sends_left(
                        self.may_retry_truncated,
                        self.repairs_sent,
                    )
                }
            } else {
                r matches Step::Decode { state } && {
                    &&& state.as_of_date == self.as_of_date
                    &&& state.max_tokens == self.max_tokens
                    &&& state.repairs_sent == self.repairs_sent
                    &&& state.raw_response@ == reply.raw@
                    &&& state.output@ == output_text(reply.content@)
                    &&& state.payload@ == payload_text(reply.content@)
                }
            },
    {
        if self.may_retry_truncated && is_truncated(&reply.stop_reason) {
            let request = MessageRequest {
                max_tokens: bump_max_tokens(self.max_tokens),
                system: system_prompt(),
                user: self.user_prompt.clone(),
            };
            let state = AwaitingReply {
                as_of_date: self.as_of_date,
                max_tokens: self.max_tokens,
                user_prompt: self.user_prompt,
                may_retry_truncated: false,
                repairs_sent: self.repairs_sent,
            };
            return Step::Send { state, request };
        }
        let (output, payload) = match response_tool_snapshot(&reply.content) {
            Some(input) => {
                let payload = input.clone();
                (input, payload)
            },
            None => {
                let text = response_text(&reply.content);
                let payload = json_payload(text.as_str());
                (text, payload)
            },
        };
        Step::Decode {
            state: AwaitingDecode {
                as_of_date: self.as_of_date,
                max_tokens: self.max_tokens,
                repairs_sent: self.repairs_sent,
                raw_response: reply.raw,
                output,
                payload,
            },
        }
    }
}

impl AwaitingDecode {
    /// Takes the decoded payload, `None` where it was no JSON of the snapshot's form,
    /// and holds it to the contract. A snapshot that meets it ends the generation, with
    /// the body of the reply it came from. Otherwise a repair request is sent, which
    /// shows the output that failed; after [`MAX_REPAIRS`] of them the generation
    /// fails, and the failure keeps the last output and the last body.
    ///
    /// An output that is well formed but is for another day than the one asked for
    /// breaks the contract like any other: it is a failed output, with the failure
    /// [`ValidationError::DateMismatch`], and is repaired. It is never taken as the
    /// snapshot of the day that it names, whether it answers the first request or a
    /// repair request.
    pub fn on_decoded(self, decoded: Option<LlmRecommendationSnapshot>) -> (r: Step)
        ensures
            match decode_outcome(decoded, self.payload@, self.as_of_date) {
                Ok(s) => r matches Step::Done(Ok(g)) && {
                    &&& g.snapshot@ == s
                    &&& g.snapshot.wf()
                    &&& g.raw_response@ == self.raw_response@
                },
                Err(why) => if self.repairs_sent < MAX_REPAIRS {
                    r matches Step::Send { state, request } && {
                        &&& request.max_tokens == self.max_tokens
                        &&& request.system@ == SYSTEM_PROMPT@
                        &&& request.user@ == repair_prompt_text(self.output@, self.as_of_date)
                        &&& state.as_of_date == self.as_of_date
                        &&& state.max_tokens == self.max_tokens
                        &&& state.user_prompt@ == request.user@
                        &&& !state.may_retry_truncated
                        &&& state.repairs_sent == self.repairs_sent + 1
                        &&& sends_left(state.may_retry_truncated, state.repairs_sent) < sends_left(
                            false,
                            self.repairs_sent,
                        )
                    }
                } else {
                    r matches Step::Done(Err(e)) && {
                        &&& e.provider == Provider::Anthropic
                        &&& e.stage == Stage::ParseAfterRepair
                        &&& e.detail@ == FINAL_ERROR_PREFIX@ + why
                        &&& e.raw_output matches Some(o) && o@ == self.output@
                        &&& e.raw_response_json matches Some(j) && j@ == self.raw_response@
                    }
                },
            },
    {
        let why: String = match decoded {
            Some(raw) => match raw.validate_and_into_snapshot(self.as_of_date) {
                Ok(snapshot) => {
                    return Step::Done(Ok(Generated { snapshot, raw_response: self.raw_response }));
                },
                Err(e) => e.message(),
            },
            None => {
                let mut text = String::from_str(NOT_JSON_PREFIX);
                text.append(self.payload.as_str());
                text
            },
        };
        if self.repairs_sent < MAX_REPAIRS {
            let user = repair_prompt(self.output.as_str(), self.as_of_date);
            let state = AwaitingReply {
                as_of_date: self.as_of_date,
                max_tokens: self.max_tokens,
                user_prompt: user.clone(),
                may_retry_truncated: false,
                repairs_sent: self.repairs_sent + 1,
            };
            let request = MessageRequest {
                max_tokens: self.max_tokens,
                system: system_prompt(),
                user,
            };
            return Step::Send { state, request };
        }
        let mut detail = String::from_str(FINAL_ERROR_PREFIX);
        detail.append(why.as_str());
        Step::Done(
            Err(
                LlmDiagnosticsError {
                    provider: Provider::Anthropic,
                    stage: Stage::ParseAfterRepair,
                    detail,
                    raw_output: Some(self.output),
                    raw_response_json: Some(self.raw_response),
                },
            ),
        )
    }
}

} // verus!
