use commitgen::context::Context;
use commitgen::error::ErrorKind;
use commitgen::providers::HttpOutcome;
use commitgen::providers::gemini::Gemini;
use commitgen::reply::decode_reply;
use commitgen::reply::extract_candidates;

fn generate_with_body(body: &str) -> commitgen::providers::GenerateReport {
    let ctx = Context {
        draft: None,
        examples: None,
        tone_preset: None,
        git_diff: "d".to_string(),
        git_log: "l".to_string(),
    };
    let outcomes = vec![HttpOutcome::Status(200, body.to_string())];
    Gemini::new(None).generate("x", &ctx, Some("key".to_string()), &outcomes)
}

#[test]
fn blank_piece_is_dropped() {
    let body = "{\"candidates\":[{\"content\":{\"parts\":[{\"text\":\"a\\n---\\nb\\n---\\n  \\n\"}]}}]}";
    let report = generate_with_body(body);
    assert_eq!(report.result.unwrap(), vec!["a".to_string(), "b".to_string()]);
}

#[test]
fn flattening_preserves_document_order() {
    let body = "{\"candidates\":[{\"content\":{\"parts\":[{\"text\":\"one\\n---\\ntwo\"},{\"text\":\"three\"}]}},{\"content\":{\"parts\":[{\"text\":\"four\"},{\"text\":\"five\\n---\\nsix\"}]}}]}";
    let report = generate_with_body(body);
    assert_eq!(
        report.result.unwrap(),
        vec!["one", "two", "three", "four", "five", "six"]
    );
}

#[test]
fn duplicates_are_kept() {
    let body = "{\"candidates\":[{\"content\":{\"parts\":[{\"text\":\"same\\n---\\nsame\"}]}}]}";
    let report = generate_with_body(body);
    assert_eq!(report.result.unwrap(), vec!["same".to_string(), "same".to_string()]);
}

#[test]
fn unparsable_body_is_malformed() {
    let report = generate_with_body("not json at all");
    let error = report.result.unwrap_err();
    assert_eq!(error.kind, ErrorKind::MalformedResponse);
    assert!(error.message().contains("failed to deserialize Gemini API response"));
    assert_eq!(error.causes.len(), 1);
    assert!(error.message().contains(&error.causes[0]));
}

#[test]
fn wrong_shape_is_malformed() {
    let report = generate_with_body("{\"candidates\":[{\"content\":{}}]}");
    let error = report.result.unwrap_err();
    assert_eq!(error.kind, ErrorKind::MalformedResponse);
    assert_eq!(error.causes.len(), 1);
}

#[test]
fn all_blank_fragments_are_malformed() {
    let body = "{\"candidates\":[{\"content\":{\"parts\":[{\"text\":\"   \\n \"}]}}]}";
    let report = generate_with_body(body);
    let error = report.result.unwrap_err();
    assert_eq!(error.kind, ErrorKind::MalformedResponse);
    assert!(error.message().contains("no usable text fragments"));
}

#[test]
fn decode_reply_reads_the_wire_shape() {
    let body = "{\"candidates\":[{\"content\":{\"parts\":[{\"text\":\"x\"},{\"text\":\"y\"}]}},{\"content\":{\"parts\":[{\"text\":\"z\"}]}}]}";
    let decoded = decode_reply(body).unwrap();
    assert_eq!(decoded, vec![vec!["x".to_string(), "y".to_string()], vec!["z".to_string()]]);
    assert!(decode_reply("{\"answers\":[]}").is_err());
}

#[test]
fn extract_trims_every_piece() {
    let reply = vec![vec!["  a  \n---\n\tb\t".to_string()]];
    assert_eq!(extract_candidates(&reply), vec!["a".to_string(), "b".to_string()]);
}
