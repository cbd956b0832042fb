use diff_analyzer::estimator::estimate_tokens;
use diff_analyzer::orchestrator::{
    build_fallback_request, build_primary_request, is_size_rejection, on_fallback_outcome,
    on_primary_outcome, primary_content_budget, AnalysisError, AnalysisIdentity, AnalysisStep,
    CompletionOutcome, ModelTier, FALLBACK_MAX_RESPONSE_TOKENS, PRIMARY_MAX_RESPONSE_TOKENS,
};

fn identity() -> AnalysisIdentity {
    AnalysisIdentity {
        subject: "web-player".to_string(),
        range: "v1.2.0 -> v1.3.0".to_string(),
    }
}

const MARKER: &str = "... (remainder omitted due to budget)\n";

#[test]
fn size_rejection_is_recognised_by_its_substrings() {
    assert!(is_size_rejection(
        "{\"error\": {\"code\": \"context_length_exceeded\"}}"
    ));
    assert!(is_size_rejection(
        "This model's maximum context length is 128000 tokens."
    ));
    assert!(!is_size_rejection("Incorrect API key provided."));
    assert!(!is_size_rejection(""));
}

#[test]
fn primary_budget_is_window_minus_overhead_and_reservation() {
    assert_eq!(primary_content_budget(), 120000 - 800 - 4000);
}

#[test]
fn small_diff_goes_into_the_primary_request_unchanged() {
    let diff = "diff --git a/x b/x\n+small change\n";
    let req = build_primary_request(diff, &identity());
    assert_eq!(req.model, ModelTier::Primary);
    assert_eq!(req.max_tokens, PRIMARY_MAX_RESPONSE_TOKENS);
    assert_eq!(req.content, diff);
    assert_eq!(req.identity.subject, "web-player");
    assert_eq!(req.identity.range, "v1.2.0 -> v1.3.0");
}

#[test]
fn oversized_diff_is_truncated_for_the_primary_request() {
    // Dense-script characters estimate one token each, so 120,000 of them
    // exceed the primary content budget of 115,200.
    let mut diff = String::new();
    for _ in 0..120 {
        diff.push_str(&"가".repeat(1000));
        diff.push('\n');
    }
    let req = build_primary_request(&diff, &identity());
    assert_eq!(req.model, ModelTier::Primary);
    assert!(req.content.starts_with("=== stats ==="));
    assert!(req.content.ends_with(MARKER));
    assert!(estimate_tokens(&req.content) <= primary_content_budget() + estimate_tokens(MARKER) + 1);
}

#[test]
fn success_with_a_choice_ends_the_analysis() {
    let outcome = CompletionOutcome::Completed {
        choices: vec!["the analysis".to_string(), "a second choice".to_string()],
    };
    match on_primary_outcome("content", &identity(), outcome) {
        AnalysisStep::Done { text } => assert_eq!(text, "the analysis"),
        other => panic!("expected the first choice, got {:?}", other),
    }
}

#[test]
fn success_without_choices_is_the_empty_response_failure() {
    let outcome = CompletionOutcome::Completed { choices: vec![] };
    match on_primary_outcome("content", &identity(), outcome) {
        AnalysisStep::Failed {
            error: AnalysisError::EmptyResponse,
        } => {}
        other => panic!("expected the empty-response failure, got {:?}", other),
    }
}

#[test]
fn size_rejection_yields_exactly_one_fallback_request() {
    // Scenario: the provider rejects the primary request for size; the
    // orchestration answers with one request against the smaller model.
    let content = "+a modest diff\n";
    let outcome = CompletionOutcome::HttpFailure {
        status: 400,
        body: "context_length_exceeded".to_string(),
    };
    match on_primary_outcome(content, &identity(), outcome) {
        AnalysisStep::Retry { request } => {
            assert_eq!(request.model, ModelTier::Fallback);
            assert_eq!(request.max_tokens, FALLBACK_MAX_RESPONSE_TOKENS);
            // The content estimated under the threshold, so it went out as
            // it stood, the identity labels carried on.
            assert_eq!(request.content, content);
            assert_eq!(request.identity.subject, "web-player");
            assert_eq!(request.identity.range, "v1.2.0 -> v1.3.0");
        }
        other => panic!("expected the fallback request, got {:?}", other),
    }
    // The fallback's success is returned as the result.
    let fallback_outcome = CompletionOutcome::Completed {
        choices: vec!["fallback analysis".to_string()],
    };
    assert_eq!(
        on_fallback_outcome(fallback_outcome).unwrap(),
        "fallback analysis"
    );
}

#[test]
fn unrelated_provider_error_is_terminal_with_no_retry() {
    // Scenario: an authentication failure; the orchestration surfaces it
    // verbatim and issues nothing further.
    let outcome = CompletionOutcome::HttpFailure {
        status: 401,
        body: "Incorrect API key provided.".to_string(),
    };
    match on_primary_outcome("content", &identity(), outcome) {
        AnalysisStep::Failed {
            error: AnalysisError::Transport { body },
        } => assert_eq!(body, "Incorrect API key provided."),
        other => panic!("expected a terminal failure, got {:?}", other),
    }
}

#[test]
fn oversized_content_is_resummarized_for_the_fallback() {
    // 9,000 dense-script characters estimate over the 8,000-token
    // threshold, so the fallback content is re-truncated to 6,000.
    let mut content = String::new();
    for _ in 0..9 {
        content.push_str(&"나".repeat(1000));
        content.push('\n');
    }
    let req = build_fallback_request(&content, &identity());
    assert_eq!(req.model, ModelTier::Fallback);
    assert_eq!(req.max_tokens, FALLBACK_MAX_RESPONSE_TOKENS);
    assert!(req.content.starts_with("=== stats ==="));
    assert!(req.content.ends_with(MARKER));
    assert!(estimate_tokens(&req.content) <= 6000 + estimate_tokens(MARKER) + 1);
}

#[test]
fn content_under_the_threshold_goes_to_the_fallback_unchanged() {
    let content = "+one line\n-another\n";
    let req = build_fallback_request(content, &identity());
    assert_eq!(req.content, content);
}

#[test]
fn fallback_failure_is_terminal_and_carries_its_own_error() {
    let outcome = CompletionOutcome::HttpFailure {
        status: 500,
        body: "upstream brownout".to_string(),
    };
    match on_fallback_outcome(outcome) {
        Err(AnalysisError::Transport { body }) => assert_eq!(body, "upstream brownout"),
        other => panic!("expected a terminal transport failure, got {:?}", other),
    }
}

#[test]
fn fallback_success_without_choices_is_the_empty_response_failure() {
    let outcome = CompletionOutcome::Completed { choices: vec![] };
    match on_fallback_outcome(outcome) {
        Err(AnalysisError::EmptyResponse) => {}
        other => panic!("expected the empty-response failure, got {:?}", other),
    }
}
