//! Structured errors: every terminal outcome of the pipeline carries a kind,
//! a primary message, optional explanatory notes, remediation hints and
//! chained causes, and renders as the familiar `error:`/`note:`/`help:` lines.
use vstd::prelude::*;

use crate::text;

verus! {

/// The class of a terminal failure; each maps to one user-visible outcome.
#[derive(Clone, Copy, Debug, PartialEq, Eq, Structural)]
pub enum ErrorKind {
    /// A failure outside the enumerated classes (argument handling and such).
    General,
    /// No repository context was found, or the data-collection command failed.
    RepositoryUnavailable,
    /// The repository has no staged diff; dispatch never begins.
    NoStagedChanges,
    /// The manifest is missing, malformed, or selects an unimplemented provider.
    ConfigurationInvalid,
    /// The required environment credential is absent.
    CredentialMissing,
    /// The remote provider reported that the configured model does not exist.
    UnknownModel,
    /// Server-side trouble persisted across every allowed attempt.
    ExhaustedRetries,
    /// Any other network or HTTP failure; never retried.
    TransportPermanent,
    /// The reply could not be decoded or contained no usable text fragments.
    MalformedResponse,
}

/// A typed failure with a primary message, chained causes, notes and hints.
#[derive(Debug)]
pub struct Error {
    pub kind: ErrorKind,
    pub message: String,
    pub causes: Vec<String>,
    pub notes: Vec<String>,
    pub helps: Vec<String>,
    pub raw: Option<String>,
}

pub open spec fn spec_red(s: Seq<char>) -> Seq<char> {
    "\x1b[1;31m"@ + s + "\x1b[0m"@
}

pub open spec fn spec_green(s: Seq<char>) -> Seq<char> {
    "\x1b[1;32m"@ + s + "\x1b[0m"@
}

/// Wraps the text in the bold-red terminal escape.
pub fn red(text: &str) -> (r: String)
    ensures
        r@ == spec_red(text@),
{
    let r = String::from_str("\x1b[1;31m").concat(text).concat("\x1b[0m");
    proof {
        assert(r@ =~= spec_red(text@));
    }
    r
}

/// Wraps the text in the bold-green terminal escape.
pub fn green(text: &str) -> (r: String)
    ensures
        r@ == spec_green(text@),
{
    let r = String::from_str("\x1b[1;32m").concat(text).concat("\x1b[0m");
    proof {
        assert(r@ =~= spec_green(text@));
    }
    r
}

pub open spec fn error_line(s: Seq<char>) -> Seq<char> {
    spec_red("error"@) + ": "@ + s
}

pub open spec fn note_line(s: Seq<char>) -> Seq<char> {
    spec_green("note"@) + ": "@ + s
}

pub open spec fn help_line(s: Seq<char>) -> Seq<char> {
    spec_green("help"@) + ": "@ + s
}

/// The report lines, in order: the primary error, one error line per chained
/// cause, then the notes, then the hints.
pub open spec fn spec_message_lines(e: Error) -> Seq<Seq<char>> {
    seq![error_line(e.message@)] + e.causes.deep_view().map_values(|s: Seq<char>| error_line(s))
        + e.notes.deep_view().map_values(|s: Seq<char>| note_line(s))
        + e.helps.deep_view().map_values(|s: Seq<char>| help_line(s))
}

/// The rendered report: the raw text when one was given, else the lines
/// joined with newlines.
pub open spec fn spec_message(e: Error) -> Seq<char> {
    match e.raw {
        Some(r) => r@,
        None => text::spec_join(spec_message_lines(e), "\n"@),
    }
}

impl Error {
    /// A fresh error of the catch-all kind with the given primary message.
    pub fn new(message: String) -> (r: Error)
        ensures
            r.kind == ErrorKind::General,
            r.message@ == message@,
            r.causes@.len() == 0,
            r.notes@.len() == 0,
            r.helps@.len() == 0,
            r.raw is None,
    {
        Error {
            kind: ErrorKind::General,
            message,
            causes: Vec::new(),
            notes: Vec::new(),
            helps: Vec::new(),
            raw: None,
        }
    }

    /// A fresh error of the given kind with the given primary message.
    pub fn of_kind(kind: ErrorKind, message: String) -> (r: Error)
        ensures
            r.kind == kind,
            r.message@ == message@,
            r.causes@.len() == 0,
            r.notes@.len() == 0,
            r.helps@.len() == 0,
            r.raw is None,
    {
        Error {
            kind,
            message,
            causes: Vec::new(),
            notes: Vec::new(),
            helps: Vec::new(),
            raw: None,
        }
    }

    /// An error whose report is exactly the given text, with no decoration.
    pub fn raw(message: String) -> (r: Error)
        ensures
            r.kind == ErrorKind::General,
            r.raw == Some(message),
            r.causes@.len() == 0,
            r.notes@.len() == 0,
            r.helps@.len() == 0,
    {
        Error {
            kind: ErrorKind::General,
            message: String::new(),
            causes: Vec::new(),
            notes: Vec::new(),
            helps: Vec::new(),
            raw: Some(message),
        }
    }

    /// Attaches an underlying cause to the error, replacing any previous one.
    pub fn with_source(self, source: String) -> (r: Error)
        ensures
            r.kind == self.kind,
            r.message == self.message,
            r.causes.deep_view() == seq![source@],
            r.notes == self.notes,
            r.helps == self.helps,
            r.raw == self.raw,
    {
        let mut causes: Vec<String> = Vec::new();
        causes.push(source);
        proof {
            assert(causes.deep_view() =~~= seq![source@]);
        }
        Error {
            kind: self.kind,
            message: self.message,
            causes,
            notes: self.notes,
            helps: self.helps,
            raw: self.raw,
        }
    }

    /// Adds an explanatory note to the error.
    pub fn note(self, note: String) -> (r: Error)
        ensures
            r.kind == self.kind,
            r.message == self.message,
            r.causes == self.causes,
            r.notes.deep_view() == self.notes.deep_view().push(note@),
            r.helps == self.helps,
            r.raw == self.raw,
    {
        let mut notes = self.notes;
        notes.push(note);
        proof {
            assert(notes.deep_view() =~~= self.notes.deep_view().push(note@));
        }
        Error {
            kind: self.kind,
            message: self.message,
            causes: self.causes,
            notes,
            helps: self.helps,
            raw: self.raw,
        }
    }

    /// Adds a remediation hint to the error.
    pub fn help(self, help: String) -> (r: Error)
        ensures
            r.kind == self.kind,
            r.message == self.message,
            r.causes == self.causes,
            r.notes == self.notes,
            r.helps.deep_view() == self.helps.deep_view().push(help@),
            r.raw == self.raw,
    {
        let mut helps = self.helps;
        helps.push(help);
        proof {
            assert(helps.deep_view() =~~= self.helps.deep_view().push(help@));
        }
        Error {
            kind: self.kind,
            message: self.message,
            causes: self.causes,
            notes: self.notes,
            helps,
            raw: self.raw,
        }
    }

    /// Renders the whole report: the raw text when one was set, else an
    /// `error:` line for the message and each cause, then `note:` and
    /// `help:` lines, joined with newlines.
    pub fn message(&self) -> (r: String)
        ensures
            r@ == spec_message(*self),
    {
        if let Some(rawtext) = &self.raw {
            return rawtext.clone();
        }
        let mut lines: Vec<String> = Vec::new();
        let head = red("error").concat(": ").concat(self.message.as_str());
        proof {
            assert(head@ =~= error_line(self.message@));
        }
        lines.push(head);
        let mut i: usize = 0;
        let n = self.causes.len();
        while i < n
            invariant
                i <= n,
                n == self.causes@.len(),
                lines.deep_view() =~~= seq![error_line(self.message@)]
                    + self.causes.deep_view().take(i as int).map_values(
                    |s: Seq<char>| error_line(s),
                ),
            decreases n - i,
        {
            let line = red("error").concat(": ").concat(self.causes[i].as_str());
            proof {
                assert(line@ =~= error_line(self.causes@[i as int]@));
            }
            let ghost prev = lines.deep_view();
            lines.push(line);
            proof {
                assert(lines.deep_view() =~~= prev.push(error_line(self.causes@[i as int]@)));
                assert(self.causes.deep_view()[i as int] == self.causes@[i as int]@);
                assert(lines.deep_view() =~~= seq![error_line(self.message@)]
                    + self.causes.deep_view().take(i + 1).map_values(
                    |s: Seq<char>| error_line(s),
                ));
            }
            i = i + 1;
        }
        proof {
            assert(self.causes.deep_view().take(n as int) =~~= self.causes.deep_view());
        }
        let mut j: usize = 0;
        let m = self.notes.len();
        while j < m
            invariant
                j <= m,
                m == self.notes@.len(),
                lines.deep_view() =~~= seq![error_line(self.message@)]
                    + self.causes.deep_view().map_values(|s: Seq<char>| error_line(s))
                    + self.notes.deep_view().take(j as int).map_values(
                    |s: Seq<char>| note_line(s),
                ),
            decreases m - j,
        {
            let line = green("note").concat(": ").concat(self.notes[j].as_str());
            proof {
                assert(line@ =~= note_line(self.notes@[j as int]@));
            }
            let ghost prev = lines.deep_view();
            lines.push(line);
            proof {
                assert(lines.deep_view() =~~= prev.push(note_line(self.notes@[j as int]@)));
                assert(self.notes.deep_view()[j as int] == self.notes@[j as int]@);
                assert(lines.deep_view() =~~= seq![error_line(self.message@)]
                    + self.causes.deep_view().map_values(|s: Seq<char>| error_line(s))
                    + self.notes.deep_view().take(j + 1).map_values(
                    |s: Seq<char>| note_line(s),
                ));
            }
            j = j + 1;
        }
        proof {
            assert(self.notes.deep_view().take(m as int) =~~= self.notes.deep_view());
        }
        let mut k: usize = 0;
        let h = self.helps.len();
        while k < h
            invariant
                k <= h,
                h == self.helps@.len(),
                lines.deep_view() =~~= seq![error_line(self.message@)]
                    + self.causes.deep_view().map_values(|s: Seq<char>| error_line(s))
                    + self.notes.deep_view().map_values(|s: Seq<char>| note_line(s))
                    + self.helps.deep_view().take(k as int).map_values(
                    |s: Seq<char>| help_line(s),
                ),
            decreases h - k,
        {
            let line = green("help").concat(": ").concat(self.helps[k].as_str());
            proof {
                assert(line@ =~= help_line(self.helps@[k as int]@));
            }
            let ghost prev = lines.deep_view();
            lines.push(line);
            proof {
                assert(lines.deep_view() =~~= prev.push(help_line(self.helps@[k as int]@)));
                assert(self.helps.deep_view()[k as int] == self.helps@[k as int]@);
                assert(lines.deep_view() =~~= seq![error_line(self.message@)]
                    + self.causes.deep_view().map_values(|s: Seq<char>| error_line(s))
                    + self.notes.deep_view().map_values(|s: Seq<char>| note_line(s))
                    + self.helps.deep_view().take(k + 1).map_values(
                    |s: Seq<char>| help_line(s),
                ));
            }
            k = k + 1;
        }
        proof {
            assert(self.helps.deep_view().take(h as int) =~~= self.helps.deep_view());
            assert(lines.deep_view() =~~= spec_message_lines(*self));
        }
        text::join(&lines, "\n")
    }
}

/// A value that may contribute one remediation hint to an error.
pub trait IntoHelp: Sized {
    /// The hint this value contributes, if any.
    spec fn help_text(self) -> Option<Seq<char>>;

    fn into_help(self, error: Error) -> (r: Error)
        ensures
            r.kind == error.kind,
            r.message == error.message,
            r.causes == error.causes,
            r.notes == error.notes,
            r.raw == error.raw,
            r.helps.deep_view() == match self.help_text() {
                Some(t) => error.helps.deep_view().push(t),
                None => error.helps.deep_view(),
            },
    ;
}

impl IntoHelp for String {
    open spec fn help_text(self) -> Option<Seq<char>> {
        Some(self@)
    }

    fn into_help(self, error: Error) -> (r: Error) {
        error.help(self)
    }
}

impl IntoHelp for Option<String> {
    open spec fn help_text(self) -> Option<Seq<char>> {
        match self {
            Some(s) => Some(s@),
            None => None,
        }
    }

    fn into_help(self, error: Error) -> (r: Error) {
        match self {
            Some(s) => error.help(s),
            None => error,
        }
    }
}

/// A value that may contribute one explanatory note to an error.
pub trait IntoNote: Sized {
    /// The note this value contributes, if any.
    spec fn note_text(self) -> Option<Seq<char>>;

    fn into_note(self, error: Error) -> (r: Error)
        ensures
            r.kind == error.kind,
            r.message == error.message,
            r.causes == error.causes,
            r.helps == error.helps,
            r.raw == error.raw,
            r.notes.deep_view() == match self.note_text() {
                Some(t) => error.notes.deep_view().push(t),
                None => error.notes.deep_view(),
            },
    ;
}

impl IntoNote for String {
    open spec fn note_text(self) -> Option<Seq<char>> {
        Some(self@)
    }

    fn into_note(self, error: Error) -> (r: Error) {
        error.note(self)
    }
}

impl IntoNote for Option<String> {
    open spec fn note_text(self) -> Option<Seq<char>> {
        match self {
            Some(s) => Some(s@),
            None => None,
        }
    }

    fn into_note(self, error: Error) -> (r: Error) {
        match self {
            Some(s) => error.note(s),
            None => error,
        }
    }
}

} // verus!
