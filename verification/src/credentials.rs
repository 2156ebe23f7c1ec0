//! Credentials for the CI provider, and the order in which their sources
//! are tried: an explicit argument, the environment, a dotfile.

use vstd::prelude::*;
use crate::error::ProbeError;
use crate::text::{find_sole, occurs_once, sole_position};

verus! {

/// A user name and the token that goes with it.
#[derive(Debug, Clone)]
pub struct Credentials {
    pub username: String,
    pub token: String,
}

/// The mathematical value of `Credentials`.
pub struct CredentialsModel {
    pub username: Seq<char>,
    pub token: Seq<char>,
}

impl View for Credentials {
    type V = CredentialsModel;

    open spec fn view(&self) -> CredentialsModel {
        CredentialsModel { username: self.username@, token: self.token@ }
    }
}

/// The credentials that a text of the form `username:token` holds: the text
/// must contain exactly one `:`, and the two parts are what stands before
/// and after it (either may be empty).
pub open spec fn parsed_credentials(text: Seq<char>) -> Option<CredentialsModel> {
    if occurs_once(text, ':') {
        let p = sole_position(text, ':');
        Some(
            CredentialsModel {
                username: text.subrange(0, p),
                token: text.subrange(p + 1, text.len() as int),
            },
        )
    } else {
        None
    }
}

/// A source of credentials that has to be read from outside.
#[derive(Debug, Clone, Copy, PartialEq, Eq, Structural)]
pub enum Source {
    /// The two variables of the process environment.
    Environment,
    /// The same two variables, after the local dotfile has been loaded.
    Dotfile,
}

/// What the resolver wants next.
#[derive(Debug)]
pub enum Step {
    /// Resolution is over, with credentials or with the reason for none.
    Done(Result<Credentials, ProbeError>),
    /// The named source is to be read and its two values handed to `next`.
    Read(Source),
}

/// The outcome of the first step, from the argument alone.
pub open spec fn start_spec(argument: Option<Seq<char>>) -> Option<
    Result<CredentialsModel, ProbeError>,
> {
    match argument {
        Some(text) => Some(
            match parsed_credentials(text) {
                Some(c) => Ok(c),
                None => Err(ProbeError::CredentialsFormatError),
            },
        ),
        None => None,
    }
}

/// Whether a step is `Done` with the given outcome.
pub open spec fn is_done_with(step: Step, outcome: Result<CredentialsModel, ProbeError>) -> bool {
    match (step, outcome) {
        (Step::Done(Ok(c)), Ok(m)) => c@ == m,
        (Step::Done(Err(e)), Err(f)) => e == f,
        _ => false,
    }
}

/// What one read of a source gives: credentials where both the user name
/// and the token are present, nothing where either is missing.
pub open spec fn reading(username: Option<Seq<char>>, token: Option<Seq<char>>) -> Option<
    CredentialsModel,
> {
    match (username, token) {
        (Some(u), Some(t)) => Some(CredentialsModel { username: u, token: t }),
        _ => None,
    }
}

/// The outcome of the whole resolution, from the argument and from what
/// the environment holds before and after the dotfile is loaded: the first
/// source in that order that has anything decides.
pub open spec fn resolution(
    argument: Option<Seq<char>>,
    environment: Option<CredentialsModel>,
    dotfile: Option<CredentialsModel>,
) -> Result<CredentialsModel, ProbeError> {
    match start_spec(argument) {
        Some(outcome) => outcome,
        None => match environment {
            Some(c) => Ok(c),
            None => match dotfile {
                Some(c) => Ok(c),
                None => Err(ProbeError::CredentialsNotFound),
            },
        },
    }
}

/// Whether a result is the given outcome.
pub open spec fn is_outcome(
    r: Result<Credentials, ProbeError>,
    outcome: Result<CredentialsModel, ProbeError>,
) -> bool {
    is_done_with(Step::Done(r), outcome)
}

/// The model of an optional string.
pub open spec fn text_of(s: Option<String>) -> Option<Seq<char>> {
    match s {
        Some(t) => Some(t@),
        None => None,
    }
}

impl Credentials {
    /// Reads credentials from a text of the form `username:token`.
    pub fn from_string(credentials: &str) -> (r: Result<Credentials, ProbeError>)
        ensures
            match r {
                Ok(c) => parsed_credentials(credentials@) == Some(c@),
                Err(e) => parsed_credentials(credentials@).is_none()
                    && e == ProbeError::CredentialsFormatError,
            },
    {
        match find_sole(credentials, ':') {
            Some(p) => {
                proof {
                    crate::text::lemma_sole_occurrence_unique(
                        credentials@,
                        ':',
                        p as int,
                        sole_position(credentials@, ':'),
                    );
                }
                let n: usize = credentials.unicode_len();
                let username = String::from_str(credentials.substring_char(0, p));
                let token = String::from_str(credentials.substring_char(p + 1, n));
                Ok(Credentials { username, token })
            },
            None => Err(ProbeError::CredentialsFormatError),
        }
    }

    /// The first step of resolution. An argument, where there is one,
    /// decides alone: the outcome is what `from_string` makes of it, and no
    /// other source is looked at. Without an argument the environment is
    /// to be read.
    pub fn start(argument: &Option<String>) -> (step: Step)
        ensures
            match start_spec(text_of(*argument)) {
                Some(outcome) => is_done_with(step, outcome),
                None => step == Step::Read(Source::Environment),
            },
    {
        match argument {
            Some(text) => Step::Done(Credentials::from_string(text.as_str())),
            None => Step::Read(Source::Environment),
        }
    }

    /// The step after `source` has been read. Both values present end the
    /// resolution with them. Otherwise the dotfile is tried after the
    /// environment, and after the dotfile nothing is left to try.
    pub fn next(source: Source, username: Option<String>, token: Option<String>) -> (step: Step)
        ensures
            match (username, token) {
                (Some(u), Some(t)) => step == Step::Done(
                    Ok(Credentials { username: u, token: t }),
                ),
                _ => match source {
                    Source::Environment => step == Step::Read(Source::Dotfile),
                    Source::Dotfile => step == Step::Done(Err(ProbeError::CredentialsNotFound)),
                },
            },
    {
        match (username, token) {
            (Some(u), Some(t)) => Step::Done(Ok(Credentials { username: u, token: t })),
            _ => match source {
                Source::Environment => Step::Read(Source::Dotfile),
                Source::Dotfile => Step::Done(Err(ProbeError::CredentialsNotFound)),
            },
        }
    }

    /// Runs the resolution to its end on readings that were made beforehand:
    /// the two variables as the environment holds them, and as it holds
    /// them once the dotfile is loaded.
    pub fn load(
        argument: &Option<String>,
        environment: (Option<String>, Option<String>),
        dotfile: (Option<String>, Option<String>),
    ) -> (r: Result<Credentials, ProbeError>)
        ensures
            is_outcome(
                r,
                resolution(
                    text_of(*argument),
                    reading(text_of(environment.0), text_of(environment.1)),
                    reading(text_of(dotfile.0), text_of(dotfile.1)),
                ),
            ),
    {
        match Credentials::start(argument) {
            Step::Done(r) => r,
            Step::Read(_) => match Credentials::next(
                Source::Environment,
                environment.0,
                environment.1,
            ) {
                Step::Done(r) => r,
                Step::Read(_) => match Credentials::next(Source::Dotfile, dotfile.0, dotfile.1) {
                    Step::Done(r) => r,
                    Step::Read(_) => Err(ProbeError::CredentialsNotFound),
                },
            },
        }
    }
}

/// An argument decides alone: whatever the environment and the dotfile
/// hold, the outcome is what the argument gives, credentials or a format
/// error.
pub proof fn argument_takes_precedence(
    text: Seq<char>,
    environment: Option<CredentialsModel>,
    dotfile: Option<CredentialsModel>,
)
    ensures
        resolution(Some(text), environment, dotfile) == resolution(Some(text), None, None),
        resolution(Some(text), environment, dotfile) == match parsed_credentials(text) {
            Some(c) => Ok::<CredentialsModel, ProbeError>(c),
            None => Err(ProbeError::CredentialsFormatError),
        },
{
}

/// An argument without a `:` ends in a format error, whatever the
/// environment and the dotfile hold.
pub proof fn argument_without_colon_fails(
    text: Seq<char>,
    environment: Option<CredentialsModel>,
    dotfile: Option<CredentialsModel>,
)
    ensures
        !text.contains(':') ==> resolution(Some(text), environment, dotfile) == Err::<
            CredentialsModel,
            ProbeError,
        >(ProbeError::CredentialsFormatError),
{
    if !text.contains(':') {
        assert forall|p: int| !crate::text::sole_occurrence(text, ':', p) by {
            if crate::text::sole_occurrence(text, ':', p) {
                assert(text[p] == ':');
                assert(text.contains(':'));
            }
        }
    }
}

/// Without an argument the environment decides where it holds both
/// values, and only then the dotfile; where neither does, no credentials
/// are found.
pub proof fn environment_precedes_dotfile(
    environment: Option<CredentialsModel>,
    dotfile: Option<CredentialsModel>,
)
    ensures
        resolution(None, environment, dotfile) == match (environment, dotfile) {
            (Some(c), _) => Ok::<CredentialsModel, ProbeError>(c),
            (None, Some(c)) => Ok(c),
            (None, None) => Err(ProbeError::CredentialsNotFound),
        },
{
}

} // verus!
