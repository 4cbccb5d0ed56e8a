use commitgen::context::create;
use commitgen::error::Error;
use commitgen::error::ErrorKind;
use commitgen::error::IntoHelp;
use commitgen::error::IntoNote;
use commitgen::error::green;
use commitgen::error::red;
use commitgen::prompt;
use commitgen::prompts;
use commitgen::config::Provider;
use commitgen::config::TonePreset;
use commitgen::config::default_tone_preset;
use commitgen::text::u64_to_string;

#[test]
fn message_orders_error_cause_note_and_help_lines() {
    let error = Error::new("top level".to_string())
        .with_source("the cause".to_string())
        .note("a note".to_string())
        .help("a hint".to_string());
    let message = error.message();
    let lines: Vec<&str> = message.lines().collect();
    assert_eq!(lines.len(), 4);
    assert_eq!(lines[0], format!("{}: top level", red("error")));
    assert_eq!(lines[1], format!("{}: the cause", red("error")));
    assert_eq!(lines[2], format!("{}: a note", green("note")));
    assert_eq!(lines[3], format!("{}: a hint", green("help")));
}

#[test]
fn with_source_replaces_the_previous_cause() {
    let error = Error::new("m".to_string())
        .with_source("first cause".to_string())
        .with_source("second cause".to_string());
    assert_eq!(error.causes, vec!["second cause".to_string()]);
}

#[test]
fn raw_message_is_verbatim() {
    let error = Error::raw("just this".to_string());
    assert_eq!(error.message(), "just this");
}

#[test]
fn red_and_green_wrap_in_ansi_escapes() {
    assert_eq!(red("error"), "\x1b[1;31merror\x1b[0m");
    assert_eq!(green("note"), "\x1b[1;32mnote\x1b[0m");
}

#[test]
fn into_help_and_into_note_append_when_present() {
    let error = Error::new("m".to_string());
    let error = Some("try this".to_string()).into_help(error);
    let error = None::<String>.into_help(error);
    let error = "worth knowing".to_string().into_note(error);
    assert_eq!(error.helps, vec!["try this".to_string()]);
    assert_eq!(error.notes, vec!["worth knowing".to_string()]);
}

#[test]
fn empty_staged_diff_is_no_staged_changes() {
    let error = create(None, None, None, "   \n\t ".to_string(), "log".to_string()).unwrap_err();
    assert_eq!(error.kind, ErrorKind::NoStagedChanges);
    assert!(error.message().contains("no staged changes found"));
    assert!(error.message().contains("use `git add` to stage files"));
}

#[test]
fn nonempty_diff_builds_the_context() {
    let ctx = create(
        Some("draft".to_string()),
        None,
        None,
        "+ added".to_string(),
        "log".to_string(),
    )
    .unwrap();
    assert_eq!(ctx.draft.as_deref(), Some("draft"));
    assert_eq!(ctx.git_diff, "+ added");
    assert_eq!(ctx.git_log, "log");
}

#[test]
fn default_tone_is_conventional() {
    assert_eq!(default_tone_preset(), TonePreset::Conventional);
}

#[test]
fn bundled_prompt_only_for_gemini() {
    let template = prompts::get(&Provider::Gemini).unwrap();
    assert!(template.contains("${DRAFT_MESSAGE}"));
    assert!(template.contains("${GIT_COMMITS}"));
    assert!(template.contains("${GIT_DIFF}"));
    let error = prompts::get(&Provider::OpenAI).unwrap_err();
    assert_eq!(error.kind, ErrorKind::ConfigurationInvalid);
    assert!(error.message().contains("No prompt for this provider yet"));
}

#[test]
fn request_document_frames_the_sections() {
    let ctx = commitgen::context::Context {
        draft: None,
        examples: None,
        tone_preset: None,
        git_diff: "DIFF".to_string(),
        git_log: "LOG".to_string(),
    };
    let doc = prompt::create(Some("a draft".to_string()), "user words", &ctx);
    let expect_order = [
        "<commit_generation_request>",
        "<system_instructions>",
        "</system_instructions>",
        "<context>",
        "<user_prompt><![CDATA[\nuser words]]></user_prompt>",
        "<draft_message>a draft</draft_message>",
        "<git_log><![CDATA[\nLOG]]></git_log>",
        "<git_diff><![CDATA[\nDIFF]]></git_diff>",
        "</context>",
        "</commit_generation_request>",
    ];
    let mut from = 0usize;
    for part in expect_order {
        let at = doc[from..].find(part).unwrap();
        from += at + part.len();
    }
    let without_draft = prompt::create(None, "user words", &ctx);
    assert!(!without_draft.contains("draft_message"));
}

#[test]
fn u64_renders_in_decimal() {
    assert_eq!(u64_to_string(0), "0");
    assert_eq!(u64_to_string(7), "7");
    assert_eq!(u64_to_string(504), "504");
    assert_eq!(u64_to_string(18446744073709551615), "18446744073709551615");
}
