use workweave::json::JsonValue;
use workweave::tools::tool::{ToolExecutionError, ToolInvocationOutcome, ToolOutput};

fn json(text: &str) -> JsonValue {
    JsonValue::parse(text).expect("json literal")
}


fn normal_outcome_kind(outcome: &ToolInvocationOutcome) -> &'static str {
    match outcome {
        ToolInvocationOutcome::Output(_) => "output",
        ToolInvocationOutcome::OrdinaryError(_) => "ordinary_error",
        ToolInvocationOutcome::Cancelled => "cancelled",
    }
}

// V-T007-36 — the exhaustive match makes the three normal outcomes
// machine-distinguishable. There is no panic/invariant variant to normalize
// contract violations into a normal result.
#[test]
fn execution_outcome_contract_is_output_error_or_cancelled() {
    let output = ToolInvocationOutcome::Output(ToolOutput {
        content: json(r#"{"ok": true}"#),
    });
    let error = ToolInvocationOutcome::OrdinaryError(ToolExecutionError::new(
        "fixture_error",
        "ordinary tool failure",
    ));
    let cancelled = ToolInvocationOutcome::Cancelled;

    assert_eq!(normal_outcome_kind(&output), "output");
    assert_eq!(normal_outcome_kind(&error), "ordinary_error");
    assert_eq!(normal_outcome_kind(&cancelled), "cancelled");
    assert_ne!(normal_outcome_kind(&error), normal_outcome_kind(&cancelled));
}
