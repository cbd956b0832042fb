//! The primary/fallback request protocol against the completion service.
//!
//! The orchestration is a linear state machine with two tiers. The primary
//! attempt embeds the filtered diff, truncated if it estimates over the
//! primary content budget. If the provider rejects the request for size —
//! recognised by known substrings in the error body — exactly one fallback
//! attempt follows, against the smaller model, with a tighter content
//! ceiling and a smaller response cap. Any other failure, and any failure
//! of the fallback itself, is terminal. There is no third tier: repeated
//! retries against a paid service are deliberately out.
//!
//! The network call itself is the caller's: the caller sends a
//! [`CompletionRequest`], hands the provider's answer back as a
//! [`CompletionOutcome`], and the functions here decide what follows.

use vstd::prelude::*;
use crate::estimator::{estimate_tokens, token_estimate};
use crate::text::{contains_seq, contains_str, to_chars};
use crate::truncator::{smart_summarize_diff, truncate_spec};

verus! {

/// The context window the primary model is budgeted at.
pub const PRIMARY_CONTEXT_WINDOW: usize = 120000;

/// Tokens reserved for the fixed instructional prompt around the diff.
pub const PROMPT_OVERHEAD_TOKENS: usize = 800;

/// Tokens reserved for the model's response within the context window.
pub const RESPONSE_RESERVATION_TOKENS: usize = 4000;

/// The response cap of a primary request.
pub const PRIMARY_MAX_RESPONSE_TOKENS: usize = 4000;

/// The response cap of a fallback request.
pub const FALLBACK_MAX_RESPONSE_TOKENS: usize = 2000;

/// The fixed content ceiling a fallback attempt truncates to.
pub const FALLBACK_CONTENT_BUDGET: usize = 6000;

/// Content estimating above this is re-summarized before the fallback.
pub const FALLBACK_RESUMMARIZE_THRESHOLD: usize = 8000;

/// Which model a request is addressed to.
#[derive(Clone, Copy, Debug, PartialEq, Eq, Structural)]
pub enum ModelTier {
    Primary,
    Fallback,
}

/// What the analysis is about: the labels the instructional prompt names.
#[derive(Debug)]
pub struct AnalysisIdentity {
    /// The project under analysis.
    pub subject: String,
    /// The tag range or commit the diff spans.
    pub range: String,
}

impl AnalysisIdentity {
    /// A copy of the labels, for the request they are embedded in.
    pub fn duplicate(&self) -> (r: AnalysisIdentity)
        ensures
            r.subject@ == self.subject@,
            r.range@ == self.range@,
    {
        AnalysisIdentity { subject: self.subject.clone(), range: self.range.clone() }
    }
}

/// One request to the completion service, as far as the protocol is
/// concerned: the model tier, the diff content to embed, the identity
/// labels, and the response cap. The caller wraps content and labels in
/// its instructional prompt and adds transport detail such as the
/// temperature.
#[derive(Debug)]
pub struct CompletionRequest {
    pub model: ModelTier,
    pub content: String,
    pub identity: AnalysisIdentity,
    pub max_tokens: usize,
}

/// What came back from one attempt: the provider's completion choices on
/// success, or the status and error body of an HTTP failure.
#[derive(Debug)]
pub enum CompletionOutcome {
    Completed { choices: Vec<String> },
    HttpFailure { status: u16, body: String },
}

/// A terminal failure of the analysis.
#[derive(Debug)]
pub enum AnalysisError {
    /// The provider failed and the failure was no size rejection (or the
    /// one permitted fallback failed too); the error body is kept verbatim.
    Transport { body: String },
    /// The provider reported success but returned zero completion choices.
    EmptyResponse,
}

/// What follows the primary attempt: the analysis text, a terminal
/// failure, or the single permitted fallback request.
#[derive(Debug)]
pub enum AnalysisStep {
    Done { text: String },
    Failed { error: AnalysisError },
    Retry { request: CompletionRequest },
}

/// What the primary model's budget leaves for diff content.
pub open spec fn spec_primary_content_budget() -> int {
    PRIMARY_CONTEXT_WINDOW - PROMPT_OVERHEAD_TOKENS - RESPONSE_RESERVATION_TOKENS
}

/// The content a primary request embeds: the diff as it stands, unless it
/// estimates over the primary content budget, in which case its truncation
/// to that budget.
pub open spec fn spec_primary_content(diff: Seq<char>) -> Seq<char> {
    if token_estimate(diff) > spec_primary_content_budget() {
        truncate_spec(diff, spec_primary_content_budget())
    } else {
        diff
    }
}

/// The content a fallback request embeds: the primary content as it
/// stands, unless it estimates over the re-summarize threshold, in which
/// case its truncation to the fallback ceiling.
pub open spec fn spec_fallback_content(content: Seq<char>) -> Seq<char> {
    if token_estimate(content) > FALLBACK_RESUMMARIZE_THRESHOLD as int {
        truncate_spec(content, FALLBACK_CONTENT_BUDGET as int)
    } else {
        content
    }
}

/// An error body that signals the provider rejected the request for size.
pub open spec fn spec_size_rejection(body: Seq<char>) -> bool {
    ||| contains_seq(body, "context_length_exceeded"@)
    ||| contains_seq(body, "maximum context length"@)
}

/// The primary model's content budget: its context window less the prompt
/// overhead and the response reservation.
pub fn primary_content_budget() -> (b: usize)
    ensures
        b == spec_primary_content_budget(),
{
    PRIMARY_CONTEXT_WINDOW - PROMPT_OVERHEAD_TOKENS - RESPONSE_RESERVATION_TOKENS
}

/// Classifies a provider error body: true exactly when it holds one of the
/// known context-length substrings, the recoverable oversize condition.
pub fn is_size_rejection(body: &str) -> (r: bool)
    ensures
        r == spec_size_rejection(body@),
{
    let chars = to_chars(body);
    contains_str(&chars, "context_length_exceeded") || contains_str(
        &chars,
        "maximum context length",
    )
}

/// Builds the primary request: the diff — truncated only if it estimates
/// over the primary content budget — addressed to the primary model under
/// the primary response cap, the identity labels carried verbatim.
pub fn build_primary_request(filtered_diff: &str, identity: &AnalysisIdentity) -> (r:
    CompletionRequest)
    ensures
        r.model == ModelTier::Primary,
        r.max_tokens == PRIMARY_MAX_RESPONSE_TOKENS,
        r.content@ == spec_primary_content(filtered_diff@),
        r.identity.subject@ == identity.subject@,
        r.identity.range@ == identity.range@,
{
    let budget = primary_content_budget();
    let content = if estimate_tokens(filtered_diff) > budget {
        smart_summarize_diff(filtered_diff, budget)
    } else {
        filtered_diff.to_owned()
    };
    CompletionRequest {
        model: ModelTier::Primary,
        content,
        identity: identity.duplicate(),
        max_tokens: PRIMARY_MAX_RESPONSE_TOKENS,
    }
}

/// Builds the one fallback request: the content re-summarized to the
/// fallback ceiling only if it estimates over the threshold, addressed to
/// the fallback model under the smaller response cap, the same identity
/// labels carried on.
pub fn build_fallback_request(content: &str, identity: &AnalysisIdentity) -> (r:
    CompletionRequest)
    ensures
        r.model == ModelTier::Fallback,
        r.max_tokens == FALLBACK_MAX_RESPONSE_TOKENS,
        r.content@ == spec_fallback_content(content@),
        r.identity.subject@ == identity.subject@,
        r.identity.range@ == identity.range@,
{
    let smaller = if estimate_tokens(content) > FALLBACK_RESUMMARIZE_THRESHOLD {
        smart_summarize_diff(content, FALLBACK_CONTENT_BUDGET)
    } else {
        content.to_owned()
    };
    CompletionRequest {
        model: ModelTier::Fallback,
        content: smaller,
        identity: identity.duplicate(),
        max_tokens: FALLBACK_MAX_RESPONSE_TOKENS,
    }
}

/// Decides what follows the primary attempt. A success with at least one
/// choice ends the analysis with that text; a success with none is the
/// terminal empty-response failure; an HTTP failure whose body signals a
/// size rejection yields the single fallback request, built from
/// `primary_content` (what the primary request embedded); any other HTTP
/// failure is terminal, its body surfaced verbatim.
pub fn on_primary_outcome(
    primary_content: &str,
    identity: &AnalysisIdentity,
    outcome: CompletionOutcome,
) -> (step: AnalysisStep)
    ensures
        match outcome {
            CompletionOutcome::Completed { choices } => {
                if choices@.len() > 0 {
                    step matches AnalysisStep::Done { text } && text@ == choices@[0]@
                } else {
                    step matches AnalysisStep::Failed { error }
                        && error is EmptyResponse
                }
            },
            CompletionOutcome::HttpFailure { status, body } => {
                if spec_size_rejection(body@) {
                    step matches AnalysisStep::Retry { request }
                        && request.model == ModelTier::Fallback
                        && request.max_tokens == FALLBACK_MAX_RESPONSE_TOKENS
                        && request.content@ == spec_fallback_content(primary_content@)
                        && request.identity.subject@ == identity.subject@
                        && request.identity.range@ == identity.range@
                } else {
                    step matches AnalysisStep::Failed { error } && (error
                        matches AnalysisError::Transport { body: b } && b@ == body@)
                }
            },
        },
{
    match outcome {
        CompletionOutcome::Completed { choices } => {
            if choices.len() > 0 {
                let mut choices = choices;
                let text = choices.remove(0);
                AnalysisStep::Done { text }
            } else {
                AnalysisStep::Failed { error: AnalysisError::EmptyResponse }
            }
        },
        CompletionOutcome::HttpFailure { status: _, body } => {
            if is_size_rejection(body.as_str()) {
                AnalysisStep::Retry { request: build_fallback_request(primary_content, identity) }
            } else {
                AnalysisStep::Failed { error: AnalysisError::Transport { body } }
            }
        },
    }
}

/// Decides what the fallback attempt ends in. A success with at least one
/// choice is the analysis text; a success with none is the terminal
/// empty-response failure; any HTTP failure here is terminal — there is no
/// third tier — and carries the fallback's own error body.
pub fn on_fallback_outcome(outcome: CompletionOutcome) -> (r: Result<String, AnalysisError>)
    ensures
        match outcome {
            CompletionOutcome::Completed { choices } => {
                if choices@.len() > 0 {
                    r matches Ok(text) && text@ == choices@[0]@
                } else {
                    r matches Err(e) && e is EmptyResponse
                }
            },
            CompletionOutcome::HttpFailure { status, body } => {
                r matches Err(e) && (e matches AnalysisError::Transport { body: b } && b@
                    == body@)
            },
        },
{
    match outcome {
        CompletionOutcome::Completed { choices } => {
            if choices.len() > 0 {
                let mut choices = choices;
                let text = choices.remove(0);
                Ok(text)
            } else {
                Err(AnalysisError::EmptyResponse)
            }
        },
        CompletionOutcome::HttpFailure { status: _, body } => {
            Err(AnalysisError::Transport { body })
        },
    }
}

} // verus!
