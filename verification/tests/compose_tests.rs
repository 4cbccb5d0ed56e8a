use commitgen::context::Context;
use commitgen::template::compose;

fn sample_context() -> Context {
    Context {
        draft: Some("fix the parser".to_string()),
        examples: None,
        tone_preset: Some("formal".to_string()),
        git_diff: "diff text".to_string(),
        git_log: "log text".to_string(),
    }
}

#[test]
fn compose_substitutes_recognized_tokens() {
    let ctx = sample_context();
    let out = compose(
        "draft: ${DRAFT_MESSAGE}; log: ${GIT_COMMITS}; diff: ${GIT_DIFF}",
        &ctx,
    );
    assert_eq!(out, "draft: fix the parser; log: log text; diff: diff text");
}

#[test]
fn compose_expands_absent_fields_to_empty_text() {
    let ctx = sample_context();
    let out = compose("[${EXAMPLES}] tone ${TONE_PRESET}", &ctx);
    assert_eq!(out, "[] tone formal");
}

#[test]
fn compose_passes_unrecognized_tokens_through() {
    let ctx = sample_context();
    let out = compose("keep ${MYSTERY_TOKEN} as is, and ${GIT_DIFF}", &ctx);
    assert_eq!(out, "keep ${MYSTERY_TOKEN} as is, and diff text");
}

#[test]
fn compose_substitutes_bare_tokens() {
    let ctx = sample_context();
    let out = compose("diff: $GIT_DIFF, log: $GIT_COMMITS.", &ctx);
    assert_eq!(out, "diff: diff text, log: log text.");
}

#[test]
fn bare_token_names_are_greedy() {
    let ctx = sample_context();
    // the run extends past the recognized name, so nothing is substituted
    assert_eq!(compose("$GIT_DIFFx", &ctx), "$GIT_DIFFx");
    // a non-name character ends the run where the recognized name ends
    assert_eq!(compose("$GIT_DIFF-done", &ctx), "diff text-done");
}

#[test]
fn compose_leaves_malformed_tokens_alone() {
    let ctx = sample_context();
    assert_eq!(compose("price $5 and ${", &ctx), "price $5 and ${");
    assert_eq!(compose("${}", &ctx), "${}");
    assert_eq!(compose("${UNCLOSED", &ctx), "${UNCLOSED");
}

#[test]
fn compose_output_has_no_recognized_token_left() {
    let ctx = sample_context();
    let template = "a ${DRAFT_MESSAGE} b ${GIT_COMMITS} c ${GIT_DIFF} d ${EXAMPLES} e ${TONE_PRESET} f ${OTHER}";
    let once = compose(template, &ctx);
    for token in [
        "${DRAFT_MESSAGE}",
        "${GIT_COMMITS}",
        "${GIT_DIFF}",
        "${EXAMPLES}",
        "${TONE_PRESET}",
    ] {
        assert!(!once.contains(token));
    }
    assert!(once.contains("${OTHER}"));
}

#[test]
fn compose_is_idempotent_given_the_same_context() {
    let ctx = sample_context();
    let template = "a ${DRAFT_MESSAGE} b ${UNKNOWN_NAME} c ${GIT_DIFF}";
    let once = compose(template, &ctx);
    let twice = compose(&once, &ctx);
    assert_eq!(once, twice);
}
