//! The provider interface: the capability of turning a template and a
//! context into an ordered list of candidate commit messages, together with
//! the transport-level types the dispatch engine consumes and produces.
pub mod gemini;

use vstd::prelude::*;

use crate::config::Config;
use crate::context::Context;
use crate::error::Error;
use crate::error::ErrorKind;
use self::gemini::Gemini;

verus! {

/// What one HTTP attempt came back with: a status with the reply body, or a
/// transport failure (timeout, connection, name resolution) described in
/// words.
#[derive(Debug)]
pub enum HttpOutcome {
    Status(u16, String),
    Transport(String),
}

/// The attempt reached the service and succeeded.
pub open spec fn is_success(o: HttpOutcome) -> bool {
    o matches HttpOutcome::Status(c, _) && 200 <= c < 300
}

/// The service does not know the requested resource: permanent.
pub open spec fn is_not_found(o: HttpOutcome) -> bool {
    o matches HttpOutcome::Status(c, _) && c == 404
}

/// Server-side trouble: the only class worth retrying.
pub open spec fn is_server_error(o: HttpOutcome) -> bool {
    o matches HttpOutcome::Status(c, _) && 500 <= c <= 599
}

/// The reply body of a status outcome, or the transport description.
pub open spec fn outcome_body(o: HttpOutcome) -> Seq<char> {
    match o {
        HttpOutcome::Status(_, b) => b@,
        HttpOutcome::Transport(d) => d@,
    }
}

/// The status code, zero for a transport failure.
pub open spec fn outcome_code(o: HttpOutcome) -> int {
    match o {
        HttpOutcome::Status(c, _) => c as int,
        HttpOutcome::Transport(_) => 0,
    }
}

/// What one whole `generate` call did: the composed request payload, how
/// many attempts ran, the minimum backoff in seconds before each retry, and
/// the candidate list or the terminal failure.
#[derive(Debug)]
pub struct GenerateReport {
    pub payload: Option<String>,
    pub attempts: usize,
    pub waits: Vec<u64>,
    pub result: Result<Vec<String>, Error>,
}

/// Builds the dispatch engine the configuration selects. The provider set
/// is closed and only one variant is implemented so far: asking for any
/// other is a configuration error, rejected before dispatch.
pub fn select_provider(config: &Config) -> (r: Result<Gemini, Error>)
    ensures
        config.provider is Gemini <==> r is Ok,
        r matches Ok(g) ==> g.spec_model() == match config.model {
            Some(m) => m@,
            None => gemini::default_model(),
        },
        r matches Err(e) ==> e.kind == ErrorKind::ConfigurationInvalid && e.message@
            == "provider not implemented yet"@ && e.raw is None,
{
    match config.provider {
        crate::config::Provider::Gemini => Ok(Gemini::new(config.model.clone())),
        _ => Err(
            Error::of_kind(
                ErrorKind::ConfigurationInvalid,
                String::from_str("provider not implemented yet"),
            ),
        ),
    }
}

/// A generative-text provider: turns a template plus a context into an
/// ordered list of candidate strings, or fails. The credential and the
/// transport outcomes of the attempts are handed in by the caller, so the
/// engine itself performs no environment read and no network call.
pub trait Provider {
    /// Generates commit messages based on the given prompt and context.
    fn generate(
        &self,
        template: &str,
        context: &Context,
        credential: Option<String>,
        outcomes: &Vec<HttpOutcome>,
    ) -> (r: GenerateReport)
        ensures
            credential is None ==> r.attempts == 0 && r.waits@.len() == 0 && (r.result matches Err(
                e,
            ) && e.kind == ErrorKind::CredentialMissing),
            r.attempts <= 5,
            r.result matches Ok(v) ==> credential is Some,
    ;
}

} // verus!
