//! The taxonomy of poller errors and the classification of what a provider
//! call failed with.

use vstd::prelude::*;
use crate::text::{contains, occurs_in};

verus! {

/// What can go wrong with a poller, in a closed list.
#[derive(Debug, Eq, PartialEq, Clone)]
pub enum PollerError {
    /// The credentials are missing, malformed or rejected.
    InvalidCredentials(String),
    /// The credentials are valid but may not perform the named operation.
    InsufficientPermissions(String),
    /// The region is not one the provider knows.
    BadRegion(String),
    /// The request did not reach the provider.
    NetworkError(String),
    /// Anything else, with the provider's message.
    UnknownError(String),
    /// A dry run was refused for being a dry run: the operation itself would
    /// have succeeded. This is never reported as a failure.
    NoError,
}

/// A poller error with its text as a sequence of characters.
pub enum PollerErrorView {
    InvalidCredentials(Seq<char>),
    InsufficientPermissions(Seq<char>),
    BadRegion(Seq<char>),
    NetworkError(Seq<char>),
    UnknownError(Seq<char>),
    NoError,
}

impl View for PollerError {
    type V = PollerErrorView;

    open spec fn view(&self) -> PollerErrorView {
        match *self {
            PollerError::InvalidCredentials(m) => PollerErrorView::InvalidCredentials(m@),
            PollerError::InsufficientPermissions(m) => PollerErrorView::InsufficientPermissions(m@),
            PollerError::BadRegion(m) => PollerErrorView::BadRegion(m@),
            PollerError::NetworkError(m) => PollerErrorView::NetworkError(m@),
            PollerError::UnknownError(m) => PollerErrorView::UnknownError(m@),
            PollerError::NoError => PollerErrorView::NoError,
        }
    }
}

impl PollerErrorView {
    /// The text that describes the error.
    pub open spec fn description(self) -> Seq<char> {
        match self {
            PollerErrorView::InvalidCredentials(m) => m,
            PollerErrorView::InsufficientPermissions(m) => m,
            PollerErrorView::BadRegion(m) => m,
            PollerErrorView::NetworkError(m) => m,
            PollerErrorView::UnknownError(m) => m,
            PollerErrorView::NoError => "No error"@,
        }
    }

    /// What a caller gets to see of a classified error: everything but the
    /// dry-run confirmation.
    pub open spec fn surfaced(self) -> Option<PollerErrorView> {
        match self {
            PollerErrorView::NoError => None,
            _ => Some(self),
        }
    }
}

/// What a call of one of the provider's list operations failed with.
#[derive(Debug, Eq, PartialEq, Clone)]
pub enum ProviderError {
    /// The request could not be dispatched.
    HttpDispatch(String),
    /// No credentials could be obtained for the request.
    Credentials(String),
    /// The provider refused the request as invalid.
    Validation(String),
    /// The provider answered with an error of no particular kind; the text
    /// is its message.
    Unknown(String),
}

/// A provider error with its text as a sequence of characters.
pub enum ProviderErrorView {
    HttpDispatch(Seq<char>),
    Credentials(Seq<char>),
    Validation(Seq<char>),
    Unknown(Seq<char>),
}

impl View for ProviderError {
    type V = ProviderErrorView;

    open spec fn view(&self) -> ProviderErrorView {
        match *self {
            ProviderError::HttpDispatch(m) => ProviderErrorView::HttpDispatch(m@),
            ProviderError::Credentials(m) => ProviderErrorView::Credentials(m@),
            ProviderError::Validation(m) => ProviderErrorView::Validation(m@),
            ProviderError::Unknown(m) => ProviderErrorView::Unknown(m@),
        }
    }
}

/// The phrase by which the provider refuses a dry run that would have
/// succeeded.
pub const DRY_RUN_MARKER: &'static str = "DryRunOperation";

/// The phrase by which the provider denies authorization.
pub const UNAUTHORIZED_MARKER: &'static str = "UnauthorizedOperation";

/// The phrase by which the provider reports failed authentication.
pub const AUTH_FAILURE_MARKER: &'static str = "AuthFailure";

/// The class of a provider message of no particular kind, sent in answer to
/// `operation`. The marker phrases are looked for in this order: dry run,
/// authorization denial, authentication failure.
pub open spec fn classify_message(message: Seq<char>, operation: Seq<char>) -> PollerErrorView {
    if occurs_in(DRY_RUN_MARKER@, message) {
        PollerErrorView::NoError
    } else if occurs_in(UNAUTHORIZED_MARKER@, message) {
        PollerErrorView::InsufficientPermissions(operation)
    } else if occurs_in(AUTH_FAILURE_MARKER@, message) {
        PollerErrorView::InvalidCredentials(message)
    } else {
        PollerErrorView::UnknownError(message)
    }
}

/// The class of a provider error that came in answer to `operation`.
pub open spec fn classify(error: ProviderErrorView, operation: Seq<char>) -> PollerErrorView {
    match error {
        ProviderErrorView::HttpDispatch(m) => PollerErrorView::NetworkError(m),
        ProviderErrorView::Credentials(m) => PollerErrorView::InvalidCredentials(m),
        ProviderErrorView::Validation(m) => PollerErrorView::InvalidCredentials(m),
        ProviderErrorView::Unknown(m) => classify_message(m, operation),
    }
}

/// What a dry run of `operation` says about the poller's standing: nothing
/// when the call went through or was refused only for being a dry run, else
/// the class of the failure.
pub open spec fn probe(outcome: Result<(), ProviderErrorView>, operation: Seq<char>) -> Option<
    PollerErrorView,
> {
    match outcome {
        Ok(_) => None,
        Err(e) => classify(e, operation).surfaced(),
    }
}

/// What keeps a poller from starting, if anything does. The checks are, in
/// this order: the credentials strategy can be set up, the region is one
/// the provider knows, the gauge family can be built, credentials can be
/// fetched, and a dry run of `operation` goes through. The first check
/// that failed decides: a strategy or credentials failure is
/// `InvalidCredentials`, a region failure `BadRegion`, each with the
/// description of the failure; a family failure is the error it came with;
/// a probe failure has the class of its error.
pub open spec fn startup_failure<T>(
    strategy: Result<(), String>,
    region: Result<(), String>,
    family: Result<T, PollerError>,
    credentials: Result<(), String>,
    dry_run: Result<(), ProviderError>,
    operation: Seq<char>,
) -> Option<PollerErrorView> {
    match (strategy, region, family, credentials) {
        (Err(description), _, _, _) => Some(PollerErrorView::InvalidCredentials(description@)),
        (Ok(_), Err(description), _, _) => Some(PollerErrorView::BadRegion(description@)),
        (Ok(_), Ok(_), Err(e), _) => Some(e@),
        (Ok(_), Ok(_), Ok(_), Err(description)) => Some(
            PollerErrorView::InvalidCredentials(description@),
        ),
        (Ok(_), Ok(_), Ok(_), Ok(_)) => probe(view_outcome(dry_run), operation),
    }
}

impl PollerError {
    /// Decides whether a poller starts, from the outcomes of its start-up
    /// checks: it starts with what was built for it exactly when no check
    /// failed, and else the first failure is returned with its class. A
    /// check that was not made, because an earlier one had failed, is
    /// handed in as passed.
    pub fn start_up<T>(
        strategy: Result<(), String>,
        region: Result<(), String>,
        family: Result<T, PollerError>,
        credentials: Result<(), String>,
        dry_run: Result<(), ProviderError>,
        operation: &str,
    ) -> (started: Result<T, PollerError>)
        ensures
            match started {
                Ok(built) => startup_failure(
                    strategy,
                    region,
                    family,
                    credentials,
                    dry_run,
                    operation@,
                ) is None && family == Ok::<T, PollerError>(built),
                Err(e) => startup_failure(
                    strategy,
                    region,
                    family,
                    credentials,
                    dry_run,
                    operation@,
                ) == Some(e@),
            },
    {
        if let Err(description) = strategy {
            return Err(PollerError::InvalidCredentials(description));
        }
        if let Err(description) = region {
            return Err(PollerError::BadRegion(description));
        }
        let built = match family {
            Ok(built) => built,
            Err(e) => {
                return Err(e);
            },
        };
        if let Err(description) = credentials {
            return Err(PollerError::InvalidCredentials(description));
        }
        match PollerError::probe(dry_run, operation) {
            Some(e) => Err(e),
            None => Ok(built),
        }
    }

    /// The class of `error`, which came in answer to `operation`.
    pub fn classify(error: ProviderError, operation: &str) -> (class: PollerError)
        ensures
            class@ == classify(error@, operation@),
    {
        match error {
            ProviderError::HttpDispatch(m) => PollerError::NetworkError(m),
            ProviderError::Credentials(m) => PollerError::InvalidCredentials(m),
            ProviderError::Validation(m) => PollerError::InvalidCredentials(m),
            ProviderError::Unknown(m) => {
                if contains(m.as_str(), DRY_RUN_MARKER) {
                    PollerError::NoError
                } else if contains(m.as_str(), UNAUTHORIZED_MARKER) {
                    PollerError::InsufficientPermissions(operation.to_string())
                } else if contains(m.as_str(), AUTH_FAILURE_MARKER) {
                    PollerError::InvalidCredentials(m)
                } else {
                    PollerError::UnknownError(m)
                }
            },
        }
    }

    /// The error as a caller gets to see it: `None` for the dry-run
    /// confirmation, the error itself otherwise.
    pub fn surfaced(self) -> (seen: Option<PollerError>)
        ensures
            view_report(seen) == self@.surfaced(),
    {
        match self {
            PollerError::NoError => None,
            e => Some(e),
        }
    }

    /// What a dry run of `operation` that ended in `outcome` says about the
    /// poller's standing.
    pub fn probe(outcome: Result<(), ProviderError>, operation: &str) -> (verdict: Option<
        PollerError,
    >)
        ensures
            view_report(verdict) == probe(view_outcome(outcome), operation@),
    {
        match outcome {
            Ok(_) => None,
            Err(e) => PollerError::classify(e, operation).surfaced(),
        }
    }

    /// The text that describes the error.
    pub fn description(&self) -> (text: &str)
        ensures
            text@ == self@.description(),
    {
        match self {
            PollerError::InvalidCredentials(m) => m.as_str(),
            PollerError::InsufficientPermissions(m) => m.as_str(),
            PollerError::BadRegion(m) => m.as_str(),
            PollerError::NetworkError(m) => m.as_str(),
            PollerError::UnknownError(m) => m.as_str(),
            PollerError::NoError => "No error",
        }
    }
}

/// What is reported to a caller, as a view.
pub open spec fn view_report(report: Option<PollerError>) -> Option<PollerErrorView> {
    match report {
        Some(e) => Some(e@),
        None => None,
    }
}

/// The outcome of a dry run with its error, if any, as a view.
pub open spec fn view_outcome(outcome: Result<(), ProviderError>) -> Result<(), ProviderErrorView> {
    match outcome {
        Ok(_) => Ok(()),
        Err(e) => Err(e@),
    }
}

/// Dry-run classification: a provider message that holds the dry-run marker
/// is classified as `NoError`; one that holds the authorization-denial marker
/// and not the dry-run marker as `InsufficientPermissions` with the
/// operation's name; and one that holds none of the three markers as
/// `UnknownError` with the message.
pub proof fn lemma_dry_run_classification(message: Seq<char>, operation: Seq<char>)
    ensures
        occurs_in(DRY_RUN_MARKER@, message) ==> classify(
            ProviderErrorView::Unknown(message),
            operation,
        ) == PollerErrorView::NoError,
        occurs_in(UNAUTHORIZED_MARKER@, message) && !occurs_in(DRY_RUN_MARKER@, message)
            ==> classify(ProviderErrorView::Unknown(message), operation)
            == PollerErrorView::InsufficientPermissions(operation),
        !occurs_in(DRY_RUN_MARKER@, message) && !occurs_in(UNAUTHORIZED_MARKER@, message)
            && !occurs_in(AUTH_FAILURE_MARKER@, message) ==> classify(
            ProviderErrorView::Unknown(message),
            operation,
        ) == PollerErrorView::UnknownError(message),
{
}

/// `NoError` is never reported: neither a probe nor anything else that
/// reports a surfaced error ever yields it.
pub proof fn lemma_no_error_is_never_surfaced(error: PollerErrorView)
    ensures
        error.surfaced() != Some(PollerErrorView::NoError),
        error.surfaced() is None <==> error == PollerErrorView::NoError,
{
}

/// Something that mirrors one kind of remote resource into gauges, one pass
/// per call of `poll`.
pub trait Poller {
    /// Runs one reconciliation pass.
    fn poll(&mut self);
}

} // verus!
