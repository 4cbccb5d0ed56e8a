//! The bundled default prompt template of each provider.
use vstd::prelude::*;

use crate::config::Provider;
use crate::error::Error;
use crate::error::ErrorKind;

verus! {

/// The bundled default template for the Gemini provider.
pub open spec fn gemini_template() -> Seq<char> {
    "You are an expert at writing git commit messages.\n\nWrite five candidate commit messages for the staged changes described below. Each candidate must be a complete commit message: a concise summary line in the imperative mood, at most 72 characters, optionally followed by a blank line and a short body. Output nothing but the candidates, separated from one another by a line holding exactly three dashes.\n\nDraft message from the user, to refine when present:\n${DRAFT_MESSAGE}\n\nRecent commits, for tone and style:\n${GIT_COMMITS}\n\nStaged diff:\n${GIT_DIFF}\n"@
}

/// The bundled default template for the selected provider; only one
/// provider is implemented so far, and asking for another is a
/// configuration error.
pub fn get(provider: &Provider) -> (r: Result<String, Error>)
    ensures
        provider is Gemini ==> (r matches Ok(s) && s@ == gemini_template()),
        !(provider is Gemini) ==> (r matches Err(e) && e.kind == ErrorKind::ConfigurationInvalid
            && e.message@ == "No prompt for this provider yet"@),
{
    match provider {
        Provider::Gemini => Ok(
            String::from_str(
                "You are an expert at writing git commit messages.\n\nWrite five candidate commit messages for the staged changes described below. Each candidate must be a complete commit message: a concise summary line in the imperative mood, at most 72 characters, optionally followed by a blank line and a short body. Output nothing but the candidates, separated from one another by a line holding exactly three dashes.\n\nDraft message from the user, to refine when present:\n${DRAFT_MESSAGE}\n\nRecent commits, for tone and style:\n${GIT_COMMITS}\n\nStaged diff:\n${GIT_DIFF}\n",
            ),
        ),
        _ => Err(
            Error::of_kind(
                ErrorKind::ConfigurationInvalid,
                String::from_str("No prompt for this provider yet"),
            ),
        ),
    }
}

} // verus!
