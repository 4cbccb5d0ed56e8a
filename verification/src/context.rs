//! The execution context: the named string fields a template may reference,
//! gathered once per run and read-only afterward.
use vstd::prelude::*;

use crate::error::Error;
use crate::error::ErrorKind;
use crate::text;

verus! {

/// The resolved set of named string values available for template expansion.
/// Absent optional fields expand to empty text, never to an error.
#[derive(Debug)]
pub struct Context {
    pub draft: Option<String>,
    pub examples: Option<String>,
    pub tone_preset: Option<String>,
    pub git_diff: String,
    pub git_log: String,
}

/// Builds the context from the user-supplied values and the repository data
/// the caller collected. A staged diff that is empty after trimming means
/// there is nothing to describe: the build fails with `NoStagedChanges` and
/// no provider dispatch can begin.
pub fn create(
    draft: Option<String>,
    examples: Option<String>,
    tone_preset: Option<String>,
    git_diff: String,
    git_log: String,
) -> (r: Result<Context, Error>)
    ensures
        r is Ok <==> !text::all_space(git_diff@),
        r matches Ok(c) ==> c.draft == draft && c.examples == examples && c.tone_preset
            == tone_preset && c.git_diff == git_diff && c.git_log == git_log,
        r matches Err(e) ==> e.kind == ErrorKind::NoStagedChanges && e.message@
            == "no staged changes found"@ && e.helps.deep_view() == seq![
            "use `git add` to stage files before generating a commit message"@,
        ] && e.causes@.len() == 0 && e.notes@.len() == 0 && e.raw is None,
{
    let chars = text::chars_of(git_diff.as_str());
    let trimmed = text::trim(&chars);
    proof {
        text::lemma_trim_all_space(git_diff@);
    }
    if trimmed.len() == 0 {
        Err(
            Error::of_kind(
                ErrorKind::NoStagedChanges,
                String::from_str("no staged changes found"),
            ).help(
                String::from_str("use `git add` to stage files before generating a commit message"),
            ),
        )
    } else {
        Ok(Context { draft, examples, tone_preset, git_diff, git_log })
    }
}

} // verus!
