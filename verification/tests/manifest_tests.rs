use commitgen::config::Provider;
use commitgen::config::TonePreset;
use commitgen::error::ErrorKind;
use commitgen::manifest::parse;

#[test]
fn test_parse_empty_manifest() {
    let content = r#""#;
    let result = parse(content);
    let error = result.unwrap_err();
    assert!(error.message().contains(
        "manifest must start with TOML frontmatter delimited by '---'"
    ));
}

#[test]
fn test_parse_empty_frontmatter() {
    let content = "---\n---\n\nsome prompt\n";
    let result = parse(content);
    let error = result.unwrap_err();
    assert!(error.message().contains("TOML frontmatter cannot be empty"));
}

#[test]
fn test_parse_empty_prompt() {
    let content = "---\nrandom\n---\n";
    let result = parse(content);
    let error = result.unwrap_err();
    assert!(error.message().contains(
        "manifest is missing the prompt after the frontmatter"
    ));
}

#[test]
fn test_parse_invalid_config() {
    let content = "---\nrandom\n---\nsome prompt\n";
    let result = parse(content);
    let error = result.unwrap_err();
    println!("{}", error.message());
    assert!(error.message().contains("failed to parse TOML frontmatter in manifest"));
    assert_eq!(error.causes.len(), 1);
    assert!(error.message().contains(&error.causes[0]));
}

#[test]
fn parse_full_manifest() {
    let content = "---\nprovider = \"gemini\"\nmodel = \"gemini-2.5-flash-lite\"\ntone_preset = \"formal\"\nexamples = \"feat: add x\"\n---\nwrite me a commit\n";
    let manifest = parse(content).unwrap();
    assert_eq!(manifest.config.provider, Provider::Gemini);
    assert_eq!(manifest.config.model.as_deref(), Some("gemini-2.5-flash-lite"));
    assert_eq!(manifest.config.tone_preset, TonePreset::Formal);
    assert_eq!(manifest.config.examples.as_deref(), Some("feat: add x"));
    assert_eq!(manifest.user_prompt, "\nwrite me a commit\n");
}

#[test]
fn parse_defaults_tone_preset() {
    let content = "---\nprovider = \"grok\"\n---\nprompt text\n";
    let manifest = parse(content).unwrap();
    assert_eq!(manifest.config.provider, Provider::Grok);
    assert_eq!(manifest.config.tone_preset, TonePreset::Conventional);
    assert!(manifest.config.model.is_none());
    assert!(manifest.config.examples.is_none());
}

#[test]
fn parse_rejects_unknown_provider() {
    let content = "---\nprovider = \"mystery\"\n---\nprompt text\n";
    let error = parse(content).unwrap_err();
    assert_eq!(error.kind, ErrorKind::ConfigurationInvalid);
    assert!(error.message().contains("failed to parse TOML frontmatter in manifest"));
}

#[test]
fn parse_rejects_missing_provider() {
    let content = "---\nmodel = \"m\"\n---\nprompt text\n";
    let error = parse(content).unwrap_err();
    assert_eq!(error.kind, ErrorKind::ConfigurationInvalid);
}

#[test]
fn parse_rejects_ill_typed_model() {
    let content = "---\nprovider = \"gemini\"\nmodel = 7\n---\nprompt text\n";
    let error = parse(content).unwrap_err();
    assert_eq!(error.kind, ErrorKind::ConfigurationInvalid);
}

#[test]
fn parse_rejects_unknown_tone_preset() {
    let content = "---\nprovider = \"gemini\"\ntone_preset = \"angry\"\n---\nprompt text\n";
    let error = parse(content).unwrap_err();
    assert_eq!(error.kind, ErrorKind::ConfigurationInvalid);
}

#[test]
fn parse_unclosed_frontmatter() {
    let content = "---\nprovider = \"gemini\"\n";
    let error = parse(content).unwrap_err();
    assert!(error.message().contains("manifest frontmatter is not closed with '---'"));
}
