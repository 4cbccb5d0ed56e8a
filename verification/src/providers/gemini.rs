//! The remote provider: serializes the composed prompt into the service's
//! wire format and runs the retry/backoff state machine over the transport
//! outcomes the caller feeds in, then parses the reply into candidates.
use vstd::prelude::*;

use crate::context::Context;
use crate::error::Error;
use crate::error::ErrorKind;
use crate::providers::GenerateReport;
use crate::providers::HttpOutcome;
use crate::providers::Provider;
use crate::MAX_ATTEMPTS;
use crate::providers::is_not_found;
use crate::providers::is_server_error;
use crate::providers::is_success;
use crate::providers::outcome_body;
use crate::providers::outcome_code;
use crate::reply;
use crate::template;
use crate::text;

verus! {

/// The dispatch engine for one HTTP generative-text service.
pub struct Gemini {
    model: String,
    url: String,
}

/// The model used when the manifest names none.
pub open spec fn default_model() -> Seq<char> {
    "gemini-2.5-flash-lite"@
}

/// The endpoint, parameterized by the resolved model name.
pub open spec fn url_of(model: Seq<char>) -> Seq<char> {
    "https://generativelanguage.googleapis.com/v1beta/models/"@ + model + ":generateContent"@
}

impl Gemini {
    /// Resolves the model name, falling back to the default, and fixes the
    /// endpoint it implies.
    pub fn new(model: Option<String>) -> (r: Gemini)
        ensures
            r.spec_model() == match model {
                Some(m) => m@,
                None => default_model(),
            },
            r.spec_url() == url_of(r.spec_model()),
    {
        let model = match model {
            Some(m) => m,
            None => String::from_str("gemini-2.5-flash-lite"),
        };
        let url = String::from_str("https://generativelanguage.googleapis.com/v1beta/models/")
            .concat(model.as_str()).concat(":generateContent");
        proof {
            assert(url@ =~= url_of(model@));
        }
        Gemini { model, url }
    }

    /// The resolved model name.
    pub fn model(&self) -> (r: String)
        ensures
            r@ == self.spec_model(),
    {
        self.model.clone()
    }

    /// The resolved endpoint.
    pub fn url(&self) -> (r: String)
        ensures
            r@ == self.spec_url(),
    {
        self.url.clone()
    }

    /// The spec-level model name, for contracts over a built engine.
    pub closed spec fn spec_model(&self) -> Seq<char> {
        self.model@
    }

    /// The spec-level endpoint, for contracts over a built engine.
    pub closed spec fn spec_url(&self) -> Seq<char> {
        self.url@
    }
}

/// The hexadecimal digit character for a value below sixteen.
pub open spec fn hex_digit(n: int) -> char {
    if n < 10 {
        text::dec_digit(n)
    } else if n == 10 {
        'a'
    } else if n == 11 {
        'b'
    } else if n == 12 {
        'c'
    } else if n == 13 {
        'd'
    } else if n == 14 {
        'e'
    } else {
        'f'
    }
}

fn hex_digit_exec(n: u32) -> (r: char)
    requires
        n < 16,
    ensures
        r == hex_digit(n as int),
{
    if n < 10 {
        text::dec_digit_exec(n as u64)
    } else if n == 10 {
        'a'
    } else if n == 11 {
        'b'
    } else if n == 12 {
        'c'
    } else if n == 13 {
        'd'
    } else if n == 14 {
        'e'
    } else {
        'f'
    }
}

/// How one character is written inside a JSON string: quote and backslash
/// escaped, control characters in the `\u00XX` form, all else verbatim.
pub open spec fn json_escape_char(c: char) -> Seq<char> {
    if c == '"' {
        seq!['\\', '"']
    } else if c == '\\' {
        seq!['\\', '\\']
    } else if (c as u32) < 0x20 {
        seq!['\\', 'u', '0', '0', hex_digit((c as u32) as int / 16), hex_digit(
            (c as u32) as int % 16,
        )]
    } else {
        seq![c]
    }
}

/// The JSON string encoding of the text, character by character.
pub open spec fn json_escape(s: Seq<char>) -> Seq<char>
    decreases s.len(),
{
    if s.len() == 0 {
        Seq::empty()
    } else {
        json_escape_char(s[0]) + json_escape(s.drop_first())
    }
}

proof fn lemma_json_escape_push(s: Seq<char>, x: char)
    ensures
        json_escape(s.push(x)) == json_escape(s) + json_escape_char(x),
    decreases s.len(),
{
    if s.len() == 0 {
        let p = s.push(x);
        assert(p.len() == 1);
        assert(p[0] == x);
        assert(p.drop_first() =~= Seq::<char>::empty());
        assert(json_escape(p.drop_first()).len() == 0);
        assert(json_escape(p) == json_escape_char(x) + json_escape(p.drop_first()));
        assert(json_escape(p) =~= json_escape(s) + json_escape_char(x));
    } else {
        lemma_json_escape_push(s.drop_first(), x);
        assert(s.push(x).drop_first() =~= s.drop_first().push(x));
        assert(s.push(x)[0] == s[0]);
        assert(json_escape_char(s[0]) + (json_escape(s.drop_first()) + json_escape_char(x))
            =~= (json_escape_char(s[0]) + json_escape(s.drop_first())) + json_escape_char(x));
    }
}

/// The request payload for the composed prompt: one text block in the
/// service's wire shape.
pub open spec fn payload_json(prompt: Seq<char>) -> Seq<char> {
    "{\"contents\":[{\"parts\":[{\"text\":\""@ + json_escape(prompt) + "\"}]}]}"@
}

/// Serializes the composed prompt into the request payload, escaping it as
/// a JSON string.
pub fn request_payload(prompt: &str) -> (r: String)
    ensures
        r@ == payload_json(prompt@),
{
    let chars = text::chars_of(prompt);
    let n = chars.len();
    let mut esc: Vec<char> = Vec::new();
    let mut i: usize = 0;
    proof {
        assert(chars@.take(0) =~= Seq::<char>::empty());
        assert(esc@ =~= json_escape(chars@.take(0)));
    }
    while i < n
        invariant
            i <= n,
            n == chars@.len(),
            esc@ == json_escape(chars@.take(i as int)),
        decreases n - i,
    {
        let c = chars[i];
        let ghost prev = esc@;
        if c == '"' {
            esc.push('\\');
            esc.push('"');
        } else if c == '\\' {
            esc.push('\\');
            esc.push('\\');
        } else if (c as u32) < 0x20 {
            let u = c as u32;
            esc.push('\\');
            esc.push('u');
            esc.push('0');
            esc.push('0');
            esc.push(hex_digit_exec(u / 16));
            esc.push(hex_digit_exec(u % 16));
        } else {
            esc.push(c);
        }
        proof {
            assert(esc@ =~= prev + json_escape_char(chars@[i as int]));
            lemma_json_escape_push(chars@.take(i as int), chars@[i as int]);
            assert(chars@.take(i as int).push(chars@[i as int]) =~= chars@.take(i + 1));
            assert(esc@ =~= json_escape(chars@.take(i + 1)));
        }
        i = i + 1;
    }
    proof {
        assert(chars@.take(n as int) =~= chars@);
    }
    let escaped = text::string_of(&esc);
    let r = String::from_str("{\"contents\":[{\"parts\":[{\"text\":\"").concat(
        escaped.as_str(),
    ).concat("\"}]}]}");
    proof {
        assert(r@ =~= payload_json(prompt@));
    }
    r
}

/// Two to the given power: the exponential backoff schedule.
pub open spec fn pow2(n: int) -> int
    decreases n,
{
    if n <= 0 {
        1
    } else {
        2 * pow2(n - 1)
    }
}

/// The minimum seconds to wait before the retry that follows this attempt.
fn backoff_secs(attempt: u32) -> (r: u64)
    requires
        1 <= attempt < MAX_ATTEMPTS,
    ensures
        r as int == pow2(attempt as int),
{
    proof {
        assert(pow2(0) == 1);
        assert(pow2(1) == 2);
        assert(pow2(2) == 4);
        assert(pow2(3) == 8);
        assert(pow2(4) == 16);
    }
    if attempt == 1 {
        2
    } else if attempt == 2 {
        4
    } else if attempt == 3 {
        8
    } else {
        16
    }
}

/// Relies on `rand::random`: some unsigned value; nothing is promised of it.
#[verifier::external_body]
fn random_u16() -> u16 {
    rand::random::<u16>()
}

/// The whole wait before a retry, in milliseconds: the minimum backoff plus
/// a pseudo-random jitter below one second, against synchronized retry
/// storms.
pub fn backoff_wait_ms(min_secs: u64) -> (r: u64)
    requires
        min_secs <= 1000000,
    ensures
        min_secs * 1000 <= r < min_secs * 1000 + 1000,
{
    let jitter = (random_u16() % 1000) as u64;
    min_secs * 1000 + jitter
}

/// What the state machine does with one attempt's outcome.
#[derive(Debug)]
pub enum StepAction {
    /// Terminal success: the reply body goes to the response parser.
    Accept(String),
    /// Transient server trouble: wait at least this many seconds, then try
    /// again with the attempt counter advanced.
    Retry(u64),
    /// Terminal failure: retrying the identical request cannot help.
    Fail(Error),
}

/// The primary message of the unknown-model failure.
pub open spec fn unknown_model_message(model: Seq<char>) -> Seq<char> {
    "unknown model: "@ + model
}

/// The primary message of the exhausted-retries failure.
pub open spec fn exhausted_message(code: int) -> Seq<char> {
    "Server error after "@ + text::dec_digits(5) + " attempts with status code: "@
        + text::dec_digits(code)
}

/// The primary message of the permanent-transport failure.
pub open spec fn transport_message(model: Seq<char>) -> Seq<char> {
    "unexpected error when request model: "@ + model
}

/// The remediation hint attached to model-related failures.
pub open spec fn model_help() -> Seq<char> {
    "review your commitgen.toml and make sure its valid model name"@
}

/// The chained cause a permanent transport failure carries: the status
/// line, or the transport description.
pub open spec fn transport_cause(o: HttpOutcome) -> Seq<char> {
    match o {
        HttpOutcome::Status(c, _) => "status code: "@ + text::dec_digits(c as int),
        HttpOutcome::Transport(d) => d@,
    }
}

/// The kind, primary message, chained causes and remediation hints of one
/// terminal failure.
pub type FailureDesc = (ErrorKind, Seq<char>, Seq<Seq<char>>, Seq<Seq<char>>);

/// The error carries exactly the described kind, message, causes and
/// hints, with no notes and no raw text.
pub open spec fn desc_matches(e: Error, d: FailureDesc) -> bool {
    e.kind == d.0 && e.message@ == d.1 && e.causes.deep_view() == d.2 && e.helps.deep_view() == d.3
        && e.notes@.len() == 0 && e.raw is None
}

/// The failure one terminal outcome produces: 404 is an unknown model with
/// a hint; a 5xx reaching the last allowed attempt exhausts the retries;
/// anything else is a permanent transport failure carrying its cause and a
/// hint.
pub open spec fn spec_step_failure(model: Seq<char>, o: HttpOutcome) -> FailureDesc {
    if is_not_found(o) {
        (ErrorKind::UnknownModel, unknown_model_message(model), Seq::empty(), seq![model_help()])
    } else if is_server_error(o) {
        (
            ErrorKind::ExhaustedRetries,
            exhausted_message(outcome_code(o)),
            Seq::empty(),
            Seq::empty(),
        )
    } else {
        (
            ErrorKind::TransportPermanent,
            transport_message(model),
            seq![transport_cause(o)],
            seq![model_help()],
        )
    }
}

/// The failure reported when the outcome sequence ran out mid-retry.
pub open spec fn starved_failure() -> FailureDesc {
    (
        ErrorKind::TransportPermanent,
        "no response from transport"@,
        Seq::<Seq<char>>::empty(),
        Seq::<Seq<char>>::empty(),
    )
}

impl Gemini {
    /// One transition of the retry state machine, at the given attempt
    /// number: 2xx succeeds with the body; 404 fails permanently as an
    /// unknown model; 5xx retries with exponential backoff until the last
    /// allowed attempt, then fails as exhausted; anything else fails
    /// permanently at once.
    pub fn step(&self, attempt: u32, outcome: &HttpOutcome) -> (r: StepAction)
        requires
            1 <= attempt <= MAX_ATTEMPTS,
        ensures
            is_success(*outcome) ==> (r matches StepAction::Accept(b) && b@ == outcome_body(
                *outcome,
            )),
            is_server_error(*outcome) && attempt < MAX_ATTEMPTS ==> (r matches StepAction::Retry(w)
                && w as int == pow2(attempt as int)),
            !is_success(*outcome) && !(is_server_error(*outcome) && attempt < MAX_ATTEMPTS) ==> (
            r matches StepAction::Fail(e) && desc_matches(
                e,
                spec_step_failure(self.spec_model(), *outcome),
            )),
    {
        match outcome {
            HttpOutcome::Status(code, body) => {
                let code = *code;
                if 200 <= code && code < 300 {
                    StepAction::Accept(body.clone())
                } else if code == 404 {
                    let msg = String::from_str("unknown model: ").concat(self.model.as_str());
                    let e = Error::of_kind(ErrorKind::UnknownModel, msg).help(
                        String::from_str(
                            "review your commitgen.toml and make sure its valid model name",
                        ),
                    );
                    proof {
                        assert(e.message@ =~= unknown_model_message(self.spec_model()));
                        assert(e.causes.deep_view() =~~= Seq::<Seq<char>>::empty());
                        assert(e.helps.deep_view() =~~= seq![model_help()]);
                    }
                    StepAction::Fail(e)
                } else if 500 <= code && code <= 599 {
                    if attempt < MAX_ATTEMPTS {
                        StepAction::Retry(backoff_secs(attempt))
                    } else {
                        let msg = String::from_str("Server error after ").concat(
                            text::u64_to_string(5).as_str(),
                        ).concat(" attempts with status code: ").concat(
                            text::u64_to_string(code as u64).as_str(),
                        );
                        let e = Error::of_kind(ErrorKind::ExhaustedRetries, msg);
                        proof {
                            assert(e.message@ =~= exhausted_message(outcome_code(*outcome)));
                            assert(e.causes.deep_view() =~~= Seq::<Seq<char>>::empty());
                            assert(e.helps.deep_view() =~~= Seq::<Seq<char>>::empty());
                        }
                        StepAction::Fail(e)
                    }
                } else {
                    let msg = String::from_str("unexpected error when request model: ").concat(
                        self.model.as_str(),
                    );
                    let cause = String::from_str("status code: ").concat(
                        text::u64_to_string(code as u64).as_str(),
                    );
                    proof {
                        assert(cause@ =~= transport_cause(*outcome));
                    }
                    let e = Error::of_kind(ErrorKind::TransportPermanent, msg).with_source(
                        cause,
                    ).help(
                        String::from_str(
                            "review your commitgen.toml and make sure its valid model name",
                        ),
                    );
                    proof {
                        assert(e.message@ =~= transport_message(self.spec_model()));
                        assert(e.causes.deep_view() =~~= seq![transport_cause(*outcome)]);
                        assert(e.helps.deep_view() =~~= seq![model_help()]);
                    }
                    StepAction::Fail(e)
                }
            },
            HttpOutcome::Transport(desc) => {
                let msg = String::from_str("unexpected error when request model: ").concat(
                    self.model.as_str(),
                );
                let e = Error::of_kind(ErrorKind::TransportPermanent, msg).with_source(
                    desc.clone(),
                ).help(
                    String::from_str(
                        "review your commitgen.toml and make sure its valid model name",
                    ),
                );
                proof {
                    assert(e.message@ =~= transport_message(self.spec_model()));
                    assert(e.causes.deep_view() =~~= seq![transport_cause(*outcome)]);
                    assert(e.helps.deep_view() =~~= seq![model_help()]);
                }
                StepAction::Fail(e)
            },
        }
    }
}

/// What the retry state machine of the engine with the given model does
/// with a whole outcome sequence, starting at the given attempt number:
/// how many outcomes it consumes, the minimum backoff seconds before each
/// retry, and the terminal result — the accepted body, or the whole
/// failure. A sequence that runs out before a terminal state counts as a
/// permanent transport failure.
pub open spec fn spec_dispatch(model: Seq<char>, outcomes: Seq<HttpOutcome>, attempt: int) -> (
    int,
    Seq<u64>,
    Result<Seq<char>, FailureDesc>,
)
    decreases outcomes.len(),
{
    if outcomes.len() == 0 {
        (0int, Seq::empty(), Err(starved_failure()))
    } else {
        let o = outcomes[0];
        if is_success(o) {
            (1int, Seq::empty(), Ok(outcome_body(o)))
        } else if is_server_error(o) && attempt < MAX_ATTEMPTS as int {
            let rest = spec_dispatch(model, outcomes.drop_first(), attempt + 1);
            (1 + rest.0, seq![(pow2(attempt) as u64)] + rest.1, rest.2)
        } else {
            (1int, Seq::empty(), Err(spec_step_failure(model, o)))
        }
    }
}

/// What one whole dispatch did: attempts, backoffs and the terminal state.
#[derive(Debug)]
pub struct DispatchLog {
    pub attempts: usize,
    pub waits: Vec<u64>,
    pub result: Result<String, Error>,
}

impl Gemini {
    /// Runs the retry state machine over the outcomes of the attempts, in
    /// order, until a terminal state: the executable form of
    /// `spec_dispatch` from the first attempt.
    pub fn dispatch(&self, outcomes: &Vec<HttpOutcome>) -> (r: DispatchLog)
        ensures
            r.attempts as int == spec_dispatch(self.spec_model(), outcomes@, 1).0,
            r.waits@ == spec_dispatch(self.spec_model(), outcomes@, 1).1,
            match r.result {
                Ok(b) => spec_dispatch(self.spec_model(), outcomes@, 1).2 == Ok::<
                    Seq<char>,
                    FailureDesc,
                >(b@),
                Err(e) => (spec_dispatch(self.spec_model(), outcomes@, 1).2 matches Err(d)
                    && desc_matches(e, d)),
            },
    {
        let n = outcomes.len();
        let mut attempt: u32 = 1;
        let mut idx: usize = 0;
        let mut waits: Vec<u64> = Vec::new();
        proof {
            assert(outcomes@.skip(0) =~= outcomes@);
            assert(spec_dispatch(self.spec_model(), outcomes@, 1).1 =~= waits@ + spec_dispatch(
                self.spec_model(),
                outcomes@.skip(0),
                1,
            ).1);
        }
        loop
            invariant
                1 <= attempt <= MAX_ATTEMPTS,
                idx == attempt - 1,
                idx <= n,
                n == outcomes@.len(),
                spec_dispatch(self.spec_model(), outcomes@, 1).0 == idx + spec_dispatch(
                    self.spec_model(),
                    outcomes@.skip(idx as int),
                    attempt as int,
                ).0,
                spec_dispatch(self.spec_model(), outcomes@, 1).1 == waits@ + spec_dispatch(
                    self.spec_model(),
                    outcomes@.skip(idx as int),
                    attempt as int,
                ).1,
                spec_dispatch(self.spec_model(), outcomes@, 1).2 == spec_dispatch(
                    self.spec_model(),
                    outcomes@.skip(idx as int),
                    attempt as int,
                ).2,
            decreases n - idx,
        {
            let ghost rest = outcomes@.skip(idx as int);
            if idx == n {
                proof {
                    assert(rest =~= Seq::<HttpOutcome>::empty());
                    assert(spec_dispatch(self.spec_model(), rest, attempt as int).1 =~= Seq::<u64>::empty());
                    assert(waits@ + spec_dispatch(self.spec_model(), rest, attempt as int).1 =~= waits@);
                }
                let e = Error::of_kind(
                    ErrorKind::TransportPermanent,
                    String::from_str("no response from transport"),
                );
                proof {
                    assert(e.causes.deep_view() =~~= Seq::<Seq<char>>::empty());
                    assert(e.helps.deep_view() =~~= Seq::<Seq<char>>::empty());
                    assert(desc_matches(e, starved_failure()));
                }
                return DispatchLog { attempts: idx, waits, result: Err(e) };
            }
            proof {
                assert(rest.len() > 0);
                assert(rest[0] == outcomes@[idx as int]);
            }
            match self.step(attempt, &outcomes[idx]) {
                StepAction::Accept(b) => {
                    proof {
                        assert(is_success(rest[0]));
                        assert(spec_dispatch(self.spec_model(), rest, attempt as int).1 =~= Seq::<u64>::empty());
                        assert(waits@ + spec_dispatch(self.spec_model(), rest, attempt as int).1 =~= waits@);
                    }
                    return DispatchLog { attempts: idx + 1, waits, result: Ok(b) };
                },
                StepAction::Fail(e) => {
                    proof {
                        assert(!(is_server_error(rest[0]) && attempt < MAX_ATTEMPTS));
                        assert(spec_dispatch(self.spec_model(), rest, attempt as int).1 =~= Seq::<u64>::empty());
                        assert(waits@ + spec_dispatch(self.spec_model(), rest, attempt as int).1 =~= waits@);
                    }
                    return DispatchLog { attempts: idx + 1, waits, result: Err(e) };
                },
                StepAction::Retry(w) => {
                    proof {
                        assert(is_server_error(rest[0]) && !is_success(rest[0]) && !is_not_found(
                            rest[0],
                        ) && attempt < MAX_ATTEMPTS);
                    }
                    let ghost prev_waits = waits@;
                    waits.push(w);
                    proof {
                        let tail = spec_dispatch(self.spec_model(), rest.drop_first(), attempt as int + 1);
                        assert(spec_dispatch(self.spec_model(), rest, attempt as int).0 == 1 + tail.0);
                        assert(spec_dispatch(self.spec_model(), rest, attempt as int).1 == seq![(pow2(
                            attempt as int,
                        ) as u64)] + tail.1);
                        assert(spec_dispatch(self.spec_model(), rest, attempt as int).2 == tail.2);
                        assert(rest.drop_first() =~= outcomes@.skip(idx + 1));
                        assert(waits@ =~= prev_waits.push(w));
                        assert(prev_waits + (seq![(pow2(attempt as int) as u64)] + tail.1)
                            =~= waits@ + tail.1);
                    }
                    idx = idx + 1;
                    attempt = attempt + 1;
                },
            }
        }
    }

    /// Executes one logical generate request: fails fast when the
    /// credential is absent, before any attempt; otherwise composes the
    /// prompt, serializes the payload, runs the retry state machine over
    /// the attempts' outcomes, and parses an accepted reply into the
    /// candidate list. A reply that cannot be decoded, or that yields no
    /// usable candidate, is a malformed response.
    pub fn generate(
        &self,
        template: &str,
        context: &Context,
        credential: Option<String>,
        outcomes: &Vec<HttpOutcome>,
    ) -> (r: GenerateReport)
        ensures
            credential is None ==> r.attempts == 0 && r.waits@.len() == 0 && r.payload is None && (
            r.result matches Err(e) && e.kind == ErrorKind::CredentialMissing && e.message@
                == "failed to read GEMINI_API_KEY"@ && e.helps.deep_view() == seq![
                "please make sure GEMINI_API_KEY is defined"@,
            ] && e.causes@.len() == 0 && e.notes@.len() == 0 && e.raw is None),
            credential is Some ==> (r.payload matches Some(p) && p@ == payload_json(
                template::spec_compose(template@, *context),
            )),
            credential is Some ==> r.attempts as int == spec_dispatch(
                self.spec_model(),
                outcomes@,
                1,
            ).0 && r.waits@ == spec_dispatch(self.spec_model(), outcomes@, 1).1,
            credential is Some ==> match spec_dispatch(self.spec_model(), outcomes@, 1).2 {
                Err(d) => (r.result matches Err(e) && desc_matches(e, d)),
                Ok(body) => match reply::reply_of(body) {
                    Err(cause) => (r.result matches Err(e) && e.kind
                        == ErrorKind::MalformedResponse && e.message@
                        == "failed to deserialize Gemini API response"@ && e.causes.deep_view()
                        == seq![cause] && e.helps@.len() == 0 && e.notes@.len() == 0 && e.raw
                        is None),
                    Ok(rep) => if reply::spec_candidates(rep).len() == 0 {
                        (r.result matches Err(e) && e.kind == ErrorKind::MalformedResponse
                            && e.message@ == "response contained no usable text fragments"@
                            && e.causes@.len() == 0 && e.helps@.len() == 0 && e.notes@.len() == 0
                            && e.raw is None)
                    } else {
                        (r.result matches Ok(v) && v.deep_view() == reply::spec_candidates(rep))
                    },
                },
            },
    {
        if credential.is_none() {
            let e = Error::of_kind(
                ErrorKind::CredentialMissing,
                String::from_str("failed to read GEMINI_API_KEY"),
            ).help(String::from_str("please make sure GEMINI_API_KEY is defined"));
            proof {
                assert(e.helps.deep_view() =~~= seq!["please make sure GEMINI_API_KEY is defined"@]);
            }
            return GenerateReport {
                payload: None,
                attempts: 0,
                waits: Vec::new(),
                result: Err(e),
            };
        }
        let prompt = template::compose(template, context);
        let payload = request_payload(prompt.as_str());
        let log = self.dispatch(outcomes);
        let result = match log.result {
            Err(e) => Err(e),
            Ok(body) => {
                match reply::decode_reply(body.as_str()) {
                    Err(cause) => {
                        let e = Error::of_kind(
                            ErrorKind::MalformedResponse,
                            String::from_str("failed to deserialize Gemini API response"),
                        ).with_source(cause);
                        proof {
                            assert(e.causes.deep_view() =~~= seq![e.causes@[0]@]);
                        }
                        Err(e)
                    },
                    Ok(rep) => {
                        let candidates = reply::extract_candidates(&rep);
                        if candidates.len() == 0 {
                            Err(
                                Error::of_kind(
                                    ErrorKind::MalformedResponse,
                                    String::from_str(
                                        "response contained no usable text fragments",
                                    ),
                                ),
                            )
                        } else {
                            Ok(candidates)
                        }
                    },
                }
            },
        };
        GenerateReport { payload: Some(payload), attempts: log.attempts, waits: log.waits, result }
    }
}

/// The machine consumes at most the attempts that remain to it.
pub proof fn lemma_dispatch_attempt_bound(model: Seq<char>, outcomes: Seq<HttpOutcome>, attempt: int)
    requires
        1 <= attempt <= MAX_ATTEMPTS,
    ensures
        0 <= spec_dispatch(model, outcomes, attempt).0 <= 5 - attempt + 1,
    decreases outcomes.len(),
{
    if outcomes.len() > 0 {
        let o = outcomes[0];
        if !is_success(o) && is_server_error(o) && attempt < 5 {
            lemma_dispatch_attempt_bound(model, outcomes.drop_first(), attempt + 1);
        }
    }
}

impl Provider for Gemini {
    fn generate(
        &self,
        template: &str,
        context: &Context,
        credential: Option<String>,
        outcomes: &Vec<HttpOutcome>,
    ) -> (r: GenerateReport) {
        let r = Gemini::generate(self, template, context, credential, outcomes);
        proof {
            lemma_dispatch_attempt_bound(self.spec_model(), outcomes@, 1);
        }
        r
    }
}

/// Doubling makes each backoff strictly longer than the one before.
proof fn lemma_pow2_increases(a: int, b: int)
    requires
        0 <= a < b,
    ensures
        pow2(a) < pow2(b),
    decreases b,
{
    lemma_pow2_positive(a);
    if b - 1 > a {
        lemma_pow2_increases(a, b - 1);
    }
    lemma_pow2_positive(b - 1);
}

proof fn lemma_pow2_positive(n: int)
    ensures
        pow2(n) >= 1,
    decreases n,
{
    if n > 0 {
        lemma_pow2_positive(n - 1);
    }
}

/// The backoff before the retry that follows attempt `attempt + i` is
/// `2 ^ (attempt + i)` seconds: the waits the machine records, in order.
pub proof fn lemma_dispatch_waits_shape(model: Seq<char>, outcomes: Seq<HttpOutcome>, attempt: int)
    requires
        1 <= attempt <= MAX_ATTEMPTS,
    ensures
        forall|i: int|
            0 <= i < spec_dispatch(model, outcomes, attempt).1.len() ==> #[trigger] spec_dispatch(
                model,
                outcomes,
                attempt,
            ).1[i] == pow2(attempt + i),
    decreases outcomes.len(),
{
    if outcomes.len() > 0 {
        let o = outcomes[0];
        if !is_success(o) && is_server_error(o) && attempt < 5 {
            lemma_dispatch_waits_shape(model, outcomes.drop_first(), attempt + 1);
            let ws = spec_dispatch(model, outcomes, attempt).1;
            let tail = spec_dispatch(model, outcomes.drop_first(), attempt + 1).1;
            assert(pow2(0) == 1);
            assert(pow2(1) == 2);
            assert(pow2(2) == 4);
            assert(pow2(3) == 8);
            assert(pow2(4) == 16);
            if attempt < 4 {
                lemma_pow2_increases(attempt, 4);
            }
            assert(pow2(attempt) <= 16);
            assert forall|i: int| 0 <= i < ws.len() implies #[trigger] ws[i] == pow2(attempt + i)
                by {
                if i == 0 {
                    assert(ws[0] == (pow2(attempt) as u64));
                } else {
                    assert(ws[i] == tail[i - 1]);
                }
            }
        }
    }
}

/// The minimum waits between attempts are strictly increasing.
pub proof fn lemma_dispatch_waits_increasing(model: Seq<char>, outcomes: Seq<HttpOutcome>)
    ensures
        forall|i: int, j: int|
            0 <= i < j < spec_dispatch(model, outcomes, 1).1.len() ==> #[trigger] spec_dispatch(
                model,
                outcomes,
                1,
            ).1[i] < #[trigger] spec_dispatch(model, outcomes, 1).1[j],
{
    lemma_dispatch_waits_shape(model, outcomes, 1);
    let ws = spec_dispatch(model, outcomes, 1).1;
    assert forall|i: int, j: int| 0 <= i < j < ws.len() implies #[trigger] ws[i] < #[trigger] ws[j]
        by {
        assert(ws[i] == pow2(1 + i));
        assert(ws[j] == pow2(1 + j));
        lemma_pow2_increases(1 + i, 1 + j);
    }
}

/// Five server errors in a row: exactly five attempts, waits of 2, 4, 8 and
/// 16 seconds between them, and the exhausted-retries failure, whose
/// message names the attempt count and the last status code.
pub proof fn lemma_dispatch_exhausted(model: Seq<char>, outcomes: Seq<HttpOutcome>)
    requires
        outcomes.len() >= 5,
        forall|i: int| 0 <= i < outcomes.len() ==> is_server_error(#[trigger] outcomes[i]),
    ensures
        spec_dispatch(model, outcomes, 1).0 == 5,
        spec_dispatch(model, outcomes, 1).1 == seq![2u64, 4u64, 8u64, 16u64],
        spec_dispatch(model, outcomes, 1).2 matches Err(d) && d.0 == ErrorKind::ExhaustedRetries
            && d.1 == exhausted_message(outcome_code(outcomes[4])),
{
    let s1 = outcomes;
    let s2 = s1.drop_first();
    let s3 = s2.drop_first();
    let s4 = s3.drop_first();
    let s5 = s4.drop_first();
    assert(s2[0] == outcomes[1] && s3[0] == outcomes[2] && s4[0] == outcomes[3] && s5[0]
        == outcomes[4]);
    assert(is_server_error(s1[0]) && is_server_error(s2[0]) && is_server_error(s3[0])
        && is_server_error(s4[0]) && is_server_error(s5[0]));
    assert(pow2(0) == 1);
    assert(pow2(1) == 2);
    assert(pow2(2) == 4);
    assert(pow2(3) == 8);
    assert(pow2(4) == 16);
    let r5 = spec_dispatch(model, s5, 5);
    assert(!is_not_found(s5[0]));
    assert(r5.0 == 1 && r5.2 == Err::<Seq<char>, FailureDesc>(spec_step_failure(model, s5[0]))
        && r5.1.len() == 0);
    assert(spec_step_failure(model, s5[0]).0 == ErrorKind::ExhaustedRetries);
    assert(spec_step_failure(model, s5[0]).1 == exhausted_message(outcome_code(outcomes[4])));
    let r4 = spec_dispatch(model, s4, 4);
    assert(r4.0 == 2 && r4.2 == r5.2 && r4.1 == seq![16u64] + r5.1);
    let r3 = spec_dispatch(model, s3, 3);
    assert(r3.0 == 3 && r3.2 == r4.2 && r3.1 == seq![8u64] + r4.1);
    let r2 = spec_dispatch(model, s2, 2);
    assert(r2.0 == 4 && r2.2 == r3.2 && r2.1 == seq![4u64] + r3.1);
    let r1 = spec_dispatch(model, s1, 1);
    assert(r1.0 == 5 && r1.2 == r2.2 && r1.1 == seq![2u64] + r2.1);
    assert(r1.1 =~= seq![2u64, 4u64, 8u64, 16u64]);
}

/// A 404 on the first attempt: exactly one attempt, no wait, and the
/// unknown-model failure naming the model and carrying its hint —
/// whatever outcomes would have followed, and however many attempts the
/// machine was allowed.
pub proof fn lemma_dispatch_not_found(model: Seq<char>, outcomes: Seq<HttpOutcome>)
    requires
        outcomes.len() >= 1,
        is_not_found(outcomes[0]),
    ensures
        spec_dispatch(model, outcomes, 1).0 == 1,
        spec_dispatch(model, outcomes, 1).1 == Seq::<u64>::empty(),
        spec_dispatch(model, outcomes, 1).2 matches Err(d) && d == (
            ErrorKind::UnknownModel,
            unknown_model_message(model),
            Seq::<Seq<char>>::empty(),
            seq![model_help()],
        ),
{
    assert(!is_success(outcomes[0]));
    assert(!(is_server_error(outcomes[0]) && 1 < MAX_ATTEMPTS as int));
}

} // verus!
