use jlo::error::AppError;
use jlo::narrator::{
    build_range_description as build_full_description, commit_from_rev_list,
    determine_range_strategy as determine_with_cursor, extract_created_at, narrator_run_mode,
    RangeContext as FullRangeContext,
};
use jlo::narrator_window::{
    build_range_description, determine_range, determine_range_strategy, RangeContext,
    BOOTSTRAP_COMMIT_COUNT,
};

#[test]
fn test_determine_range_strategy_recent_window() {
    let head = "head_sha";
    let result = determine_range_strategy(head, |sha, count| {
        assert_eq!(sha, head);
        assert_eq!(count, BOOTSTRAP_COMMIT_COUNT);
        Ok("bootstrap_sha".to_string())
    })
    .unwrap();

    assert_eq!(result.from_commit, "bootstrap_sha");
    assert_eq!(result.to_commit, head);
}

#[test]
fn test_build_range_description_mentions_recent_window() {
    let range = RangeContext {
        from_commit: "0123456789abcdef".to_string(),
        to_commit: "fedcba9876543210".to_string(),
    };
    let description = build_range_description(&range);
    assert!(description.contains(&BOOTSTRAP_COMMIT_COUNT.to_string()));
    assert!(description.contains("0123456"));
    assert!(description.contains("fedcba9"));
}

#[test]
fn window_falls_back_to_the_first_commit() {
    let range = determine_range("head", |_, _| Ok(None), |_| Ok("root".to_string())).unwrap();
    assert_eq!(range.from_commit, "root");
    assert_eq!(range.to_commit, "head");
    let range = determine_range("head", |_, _| Ok(Some("anc".to_string())), |_| panic!("unused")).unwrap();
    assert_eq!(range.from_commit, "anc");
}

#[test]
fn window_description_is_exact() {
    let range = RangeContext { from_commit: "abc".to_string(), to_commit: "0123456789".to_string() };
    assert_eq!(
        build_range_description(&range),
        "Summarize the most recent 20 commits with non-.jules/.jlo scope (commits abc..0123456)."
    );
}

#[test]
fn test_extract_created_at_valid() {
    let content = r#"
created_at: "2026-02-05T00:00:00Z"
"#;
    let created_at = extract_created_at(content).unwrap();
    assert_eq!(created_at, "2026-02-05T00:00:00Z");
}

#[test]
fn test_determine_range_strategy_incremental() {
    let head = "head_sha";
    let latest = r#"
created_at: "2026-02-05T00:00:00Z"
"#;
    let result = determine_with_cursor(
        head,
        Some(latest),
        |_, _| panic!("Should not bootstrap"),
        |_, timestamp| {
            assert_eq!(timestamp, "2026-02-05T00:00:00Z");
            Ok(Some("base_sha".to_string()))
        },
    )
    .unwrap();

    assert_eq!(result.selection_mode, "incremental");
    assert_eq!(result.from_commit, "base_sha");
    assert_eq!(result.to_commit, head);
    assert_eq!(result.changes_since.as_deref(), Some("2026-02-05T00:00:00Z"));
}

#[test]
fn test_determine_range_strategy_bootstrap_no_file() {
    let head = "head_sha";
    let result = determine_with_cursor(
        head,
        None,
        |_, _| Ok("bootstrap_sha".to_string()),
        |_, _| panic!("Should not resolve incremental cursor"),
    )
    .unwrap();

    assert_eq!(result.selection_mode, "bootstrap");
    assert_eq!(result.from_commit, "bootstrap_sha");
    assert_eq!(result.to_commit, head);
    assert_eq!(result.changes_since, None);
}

#[test]
fn test_determine_range_strategy_bootstrap_when_no_commit_before_cursor() {
    let head = "head_sha";
    let latest = r#"
created_at: "2026-02-05T00:00:00Z"
"#;
    let result = determine_with_cursor(
        head,
        Some(latest),
        |_, _| Ok("bootstrap_sha".to_string()),
        |_, _| Ok(None),
    )
    .unwrap();

    assert_eq!(result.selection_mode, "bootstrap");
    assert_eq!(result.from_commit, "bootstrap_sha");
    assert!(result.selection_detail.contains("Fallback bootstrap"));
    assert_eq!(result.changes_since.as_deref(), Some("2026-02-05T00:00:00Z"));
}

#[test]
fn test_extract_created_at_missing_is_error() {
    let content = r#"
range:
  to_commit: "abcdef123456"
"#;
    let err = extract_created_at(content).unwrap_err();
    match err {
        AppError::Validation(msg) => assert!(msg.contains("created_at")),
        other => panic!("unexpected error: {:?}", other),
    }
}

#[test]
fn test_extract_created_at_invalid_format_is_error() {
    let content = r#"
created_at: "2026-02-05 00:00:00"
"#;
    let err = extract_created_at(content).unwrap_err();
    match err {
        AppError::Validation(msg) => assert!(msg.contains("RFC3339")),
        other => panic!("unexpected error: {:?}", other),
    }
}

#[test]
fn invalid_cursor_stops_the_range_selection() {
    let result = determine_with_cursor(
        "head",
        Some("created_at: \"yesterday\"\n"),
        |_, _| panic!("Should not bootstrap"),
        |_, _| panic!("Should not resolve"),
    );
    assert!(matches!(result, Err(AppError::Validation(_))));
}

#[test]
fn full_range_descriptions() {
    let incremental = FullRangeContext {
        from_commit: "0123456789".to_string(),
        to_commit: "abcdefabcdef".to_string(),
        selection_mode: "incremental".to_string(),
        selection_detail: String::new(),
        changes_since: Some("2026-02-05T00:00:00Z".to_string()),
    };
    assert_eq!(
        build_full_description(&incremental),
        "Summarize changes since 2026-02-05T00:00:00Z (commits 0123456..abcdefa)."
    );
    let bootstrap = FullRangeContext {
        from_commit: "01".to_string(),
        to_commit: "ab".to_string(),
        selection_mode: "bootstrap".to_string(),
        selection_detail: String::new(),
        changes_since: None,
    };
    assert_eq!(build_full_description(&bootstrap), "First summary \u{2014} recent commits (commits 01..ab).");
    assert_eq!(narrator_run_mode("incremental"), "overwrite");
    assert_eq!(narrator_run_mode("bootstrap"), "bootstrap");
    assert_eq!(commit_from_rev_list("  abc\n"), Some("abc".to_string()));
    assert_eq!(commit_from_rev_list(" \n"), None);
}

#[test]
fn extract_created_at_messages_name_the_field_and_format() {
    let missing = extract_created_at("range:\n  to_commit: abc\n").unwrap_err();
    assert_eq!(missing.message(), "changes.yml must contain non-empty created_at for incremental narrator runs");
    let invalid = extract_created_at("created_at: \"2026-02-05 00:00:00\"\n").unwrap_err();
    assert!(invalid.message().starts_with("changes.yml created_at must be RFC3339: 2026-02-05 00:00:00 ("));
}
