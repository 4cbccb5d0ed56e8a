//! User-supplied configuration: the provider selection, the optional model
//! name, optional free-text examples and the tone preset.
use vstd::prelude::*;

verus! {

/// The generative-text services a manifest may select.
#[derive(Clone, Copy, Debug, PartialEq, Eq, Structural)]
pub enum Provider {
    Gemini,
    Grok,
    OpenAI,
}

/// The tone the generated messages should take.
#[derive(Clone, Copy, Debug, PartialEq, Eq, Structural)]
pub enum TonePreset {
    Personal,
    Conventional,
    Formal,
}

/// The tone used when the manifest names none.
pub fn default_tone_preset() -> (r: TonePreset)
    ensures
        r == TonePreset::Conventional,
{
    TonePreset::Conventional
}

/// The configuration read from the manifest's frontmatter.
#[derive(Debug)]
pub struct Config {
    pub provider: Provider,
    pub model: Option<String>,
    pub examples: Option<String>,
    pub tone_preset: TonePreset,
}

} // verus!
