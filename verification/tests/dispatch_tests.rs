use commitgen::config::Config;
use commitgen::config::Provider;
use commitgen::config::TonePreset;
use commitgen::context::Context;
use commitgen::error::ErrorKind;
use commitgen::providers::select_provider;
use commitgen::providers::HttpOutcome;
use commitgen::providers::gemini::Gemini;
use commitgen::providers::gemini::StepAction;
use commitgen::providers::gemini::backoff_wait_ms;

fn empty_context() -> Context {
    Context {
        draft: None,
        examples: None,
        tone_preset: None,
        git_diff: "a diff".to_string(),
        git_log: "a log".to_string(),
    }
}

fn server_errors(n: usize) -> Vec<HttpOutcome> {
    (0..n).map(|_| HttpOutcome::Status(500, String::new())).collect()
}

#[test]
fn five_server_errors_exhaust_retries() {
    let gemini = Gemini::new(None);
    let outcomes = server_errors(5);
    let report = gemini.generate("${GIT_DIFF}", &empty_context(), Some("key".to_string()), &outcomes);
    assert_eq!(report.attempts, 5);
    assert_eq!(report.waits, vec![2, 4, 8, 16]);
    let error = report.result.unwrap_err();
    assert_eq!(error.kind, ErrorKind::ExhaustedRetries);
    assert!(error.message().contains("Server error after 5 attempts with status code: 500"));
}

#[test]
fn waits_increase_strictly() {
    let gemini = Gemini::new(None);
    let outcomes = server_errors(5);
    let report = gemini.generate("x", &empty_context(), Some("key".to_string()), &outcomes);
    for pair in report.waits.windows(2) {
        assert!(pair[0] < pair[1]);
    }
}

#[test]
fn not_found_fails_on_first_attempt() {
    let gemini = Gemini::new(Some("random".to_string()));
    let outcomes = vec![
        HttpOutcome::Status(404, String::new()),
        HttpOutcome::Status(500, String::new()),
    ];
    let report = gemini.generate("x", &empty_context(), Some("key".to_string()), &outcomes);
    assert_eq!(report.attempts, 1);
    assert!(report.waits.is_empty());
    let error = report.result.unwrap_err();
    assert_eq!(error.kind, ErrorKind::UnknownModel);
    assert!(error.message().contains("unknown model: random"));
}

#[test]
fn missing_credential_fails_before_any_attempt() {
    let gemini = Gemini::new(None);
    let outcomes = vec![HttpOutcome::Status(200, "{}".to_string())];
    let report = gemini.generate("x", &empty_context(), None, &outcomes);
    assert_eq!(report.attempts, 0);
    assert!(report.waits.is_empty());
    assert!(report.payload.is_none());
    let error = report.result.unwrap_err();
    assert_eq!(error.kind, ErrorKind::CredentialMissing);
    assert!(error.message().contains("failed to read GEMINI_API_KEY"));
}

#[test]
fn other_client_errors_are_permanent() {
    let gemini = Gemini::new(None);
    let outcomes = vec![
        HttpOutcome::Status(403, String::new()),
        HttpOutcome::Status(200, String::new()),
    ];
    let report = gemini.generate("x", &empty_context(), Some("key".to_string()), &outcomes);
    assert_eq!(report.attempts, 1);
    assert_eq!(report.result.unwrap_err().kind, ErrorKind::TransportPermanent);
}

#[test]
fn transport_failures_are_permanent() {
    let gemini = Gemini::new(None);
    let outcomes = vec![HttpOutcome::Transport("connection refused".to_string())];
    let report = gemini.generate("x", &empty_context(), Some("key".to_string()), &outcomes);
    assert_eq!(report.attempts, 1);
    let error = report.result.unwrap_err();
    assert_eq!(error.kind, ErrorKind::TransportPermanent);
    assert!(error.message().contains("connection refused"));
}

#[test]
fn success_after_transient_trouble() {
    let gemini = Gemini::new(None);
    let body = "{\"candidates\":[{\"content\":{\"parts\":[{\"text\":\"one\\n---\\ntwo\"}]}}]}";
    let outcomes = vec![
        HttpOutcome::Status(503, String::new()),
        HttpOutcome::Status(200, body.to_string()),
    ];
    let report = gemini.generate("x", &empty_context(), Some("key".to_string()), &outcomes);
    assert_eq!(report.attempts, 2);
    assert_eq!(report.waits, vec![2]);
    assert_eq!(report.result.unwrap(), vec!["one".to_string(), "two".to_string()]);
}

#[test]
fn step_retries_with_exponential_backoff() {
    let gemini = Gemini::new(None);
    for (attempt, want) in [(1u32, 2u64), (2, 4), (3, 8), (4, 16)] {
        match gemini.step(attempt, &HttpOutcome::Status(500, String::new())) {
            StepAction::Retry(secs) => assert_eq!(secs, want),
            _ => panic!("expected a retry"),
        }
    }
}

#[test]
fn backoff_wait_adds_bounded_jitter() {
    for _ in 0..100 {
        let ms = backoff_wait_ms(8);
        assert!((8000..9000).contains(&ms));
    }
}

#[test]
fn payload_escapes_the_prompt() {
    let gemini = Gemini::new(None);
    let ctx = empty_context();
    let report = gemini.generate(
        "say \"hi\"\nback\\slash",
        &ctx,
        Some("key".to_string()),
        &vec![HttpOutcome::Status(404, String::new())],
    );
    let payload = report.payload.unwrap();
    assert_eq!(
        payload,
        "{\"contents\":[{\"parts\":[{\"text\":\"say \\\"hi\\\"\\u000aback\\\\slash\"}]}]}"
    );
    let parsed: serde_json::Value = serde_json::from_str(&payload).unwrap();
    assert_eq!(
        parsed["contents"][0]["parts"][0]["text"].as_str().unwrap(),
        "say \"hi\"\nback\\slash"
    );
}

#[test]
fn only_the_implemented_provider_is_selected() {
    let config = Config {
        provider: Provider::Gemini,
        model: Some("m".to_string()),
        examples: None,
        tone_preset: TonePreset::Conventional,
    };
    assert_eq!(select_provider(&config).unwrap().model(), "m");
    let other = Config { provider: Provider::OpenAI, ..config };
    let error = match select_provider(&other) {
        Ok(_) => panic!("an unimplemented provider must be rejected"),
        Err(e) => e,
    };
    assert_eq!(error.kind, ErrorKind::ConfigurationInvalid);
    assert!(error.message().contains("provider not implemented yet"));
}

#[test]
fn new_resolves_the_default_model() {
    let gemini = Gemini::new(None);
    assert_eq!(gemini.model(), "gemini-2.5-flash-lite");
    assert_eq!(
        gemini.url(),
        "https://generativelanguage.googleapis.com/v1beta/models/gemini-2.5-flash-lite:generateContent"
    );
    let named = Gemini::new(Some("other".to_string()));
    assert_eq!(named.model(), "other");
}
