use rustc_wrapper::dispatch::classify;
use rustc_wrapper::dispatch::token_is_metadata_only;
use rustc_wrapper::dispatch::Dispatch;
use rustc_wrapper::dispatch::ExitCode;

#[test]
fn exact_metadata_token_skips() {
    let args = vec!["--crate-name=foo".to_string(), "--emit=metadata".to_string()];
    assert_eq!(classify(&args), Dispatch::Skip);
    assert_eq!(ExitCode::synthetic_success().0, Some(0));
}

#[test]
fn lone_metadata_token_skips() {
    let args = vec!["--emit=metadata".to_string()];
    assert_eq!(classify(&args), Dispatch::Skip);
}

#[test]
fn metadata_with_other_emit_kinds_skips() {
    let args = vec![
        "--crate-name=foo".to_string(),
        "--emit=dep-info,metadata".to_string(),
    ];
    assert_eq!(classify(&args), Dispatch::Skip);
}

#[test]
fn token_combining_link_and_metadata_runs() {
    let args = vec!["--emit=link-metadata".to_string()];
    assert_eq!(classify(&args), Dispatch::Run);
    let args = vec!["--emit=metadata,link".to_string()];
    assert_eq!(classify(&args), Dispatch::Run);
}

#[test]
fn link_only_token_runs() {
    let args = vec!["--crate-name=foo".to_string(), "--emit=link".to_string()];
    assert_eq!(classify(&args), Dispatch::Run);
}

#[test]
fn no_emit_argument_runs() {
    let args = vec![
        "--crate-name=foo".to_string(),
        "-O".to_string(),
        "metadata".to_string(),
    ];
    assert_eq!(classify(&args), Dispatch::Run);
}

#[test]
fn empty_argument_sequence_runs() {
    let args: Vec<String> = vec![];
    assert_eq!(classify(&args), Dispatch::Run);
}

#[test]
fn skip_token_position_is_irrelevant() {
    let first = vec![
        "--emit=metadata".to_string(),
        "--crate-name=foo".to_string(),
        "-O".to_string(),
    ];
    let middle = vec![
        "--crate-name=foo".to_string(),
        "--emit=metadata".to_string(),
        "-O".to_string(),
    ];
    let last = vec![
        "--crate-name=foo".to_string(),
        "-O".to_string(),
        "--emit=metadata".to_string(),
    ];
    assert_eq!(classify(&first), Dispatch::Skip);
    assert_eq!(classify(&middle), Dispatch::Skip);
    assert_eq!(classify(&last), Dispatch::Skip);
}

#[test]
fn skip_classification_is_idempotent() {
    let args = vec!["--crate-name=foo".to_string(), "--emit=metadata".to_string()];
    let d1 = classify(&args);
    let d2 = classify(&args);
    assert_eq!(d1, Dispatch::Skip);
    assert_eq!(d2, Dispatch::Skip);
    assert_eq!(ExitCode::synthetic_success().0, Some(0));
    assert_eq!(ExitCode::synthetic_success().0, Some(0));
}

#[test]
fn token_rule_needs_emit_prefix() {
    assert!(token_is_metadata_only("--emit=metadata"));
    assert!(!token_is_metadata_only("metadata"));
    assert!(!token_is_metadata_only("--emit-metadata"));
    assert!(!token_is_metadata_only("emit=metadata"));
}

#[test]
fn token_rule_needs_metadata_after_prefix() {
    assert!(!token_is_metadata_only("--emit="));
    assert!(!token_is_metadata_only("--emit=dep-info"));
    assert!(token_is_metadata_only("--emit=dep-info,metadata"));
}

#[test]
fn token_rule_rejects_any_link_mention() {
    assert!(!token_is_metadata_only("--emit=link"));
    assert!(!token_is_metadata_only("--emit=metadata,link"));
    assert!(!token_is_metadata_only("--emit=link-metadata"));
    assert!(!token_is_metadata_only("--emit=linkmetadata"));
}

#[test]
fn exit_code_carries_status() {
    assert_eq!(ExitCode(Some(7)).0, Some(7));
    assert_eq!(ExitCode(None).0, None);
}
