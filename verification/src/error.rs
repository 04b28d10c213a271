//! Errors of the services: a kind, which says how a caller should react, and
//! a context, which says what went wrong.
use vstd::prelude::*;
use vstd::std_specs::convert::FromSpecImpl;

verus! {

/// How a caller should react to a failure.
#[derive(Debug)]
pub enum ErrorKind {
    Unauthorized,
    MalformedInput,
    /// The input broke a rule; the string names the rule.
    InvalidInput(String),
    Internal,
    NotFound,
    Balance,
}

impl Clone for ErrorKind {
    fn clone(&self) -> (r: Self)
        ensures
            r == *self,
    {
        match self {
            ErrorKind::Unauthorized => ErrorKind::Unauthorized,
            ErrorKind::MalformedInput => ErrorKind::MalformedInput,
            ErrorKind::InvalidInput(s) => ErrorKind::InvalidInput(s.clone()),
            ErrorKind::Internal => ErrorKind::Internal,
            ErrorKind::NotFound => ErrorKind::NotFound,
            ErrorKind::Balance => ErrorKind::Balance,
        }
    }
}

/// Where a failure came from.
#[derive(Copy, Clone, Eq, PartialEq, Debug, Structural)]
pub enum ErrorSource {
    R2D2,
    Repo,
}

/// What went wrong.
#[derive(Copy, Clone, Eq, PartialEq, Debug, Structural)]
pub enum ErrorContext {
    NoAuthToken,
    InvalidToken,
    NoAccount,
    NoTransaction,
    NotEnoughFunds,
    InvalidCurrency,
    UTF8,
    Json,
    BalanceOverflow,
    InvalidTransaction,
    InvalidUuid,
    NotSupported,
    MissingExchangeRate,
    LimitExceeded,
    InvalidValue,
    Timer,
    InvalidBlockchainTransactionStructure,
}

/// A failure of a service operation.
#[derive(Debug)]
pub struct Error {
    pub kind: ErrorKind,
    pub context: Option<ErrorContext>,
}

impl Error {
    pub fn new(kind: ErrorKind, context: Option<ErrorContext>) -> (r: Error)
        ensures
            r.kind == kind,
            r.context == context,
    {
        Error { kind, context }
    }

    /// A failure with the given kind and context.
    pub open spec fn of(kind: ErrorKind, context: ErrorContext) -> Error {
        Error { kind, context: Some(context) }
    }
}

/// The kind of a failure as contracts speak of it: the rule of an
/// `InvalidInput` is its text.
pub enum ErrorKindView {
    Unauthorized,
    MalformedInput,
    InvalidInput(Seq<char>),
    Internal,
    NotFound,
    Balance,
}

/// A failure as contracts speak of it.
pub struct ErrorView {
    pub kind: ErrorKindView,
    pub context: Option<ErrorContext>,
}

impl View for ErrorKind {
    type V = ErrorKindView;

    open spec fn view(&self) -> ErrorKindView {
        match self {
            ErrorKind::Unauthorized => ErrorKindView::Unauthorized,
            ErrorKind::MalformedInput => ErrorKindView::MalformedInput,
            ErrorKind::InvalidInput(s) => ErrorKindView::InvalidInput(s@),
            ErrorKind::Internal => ErrorKindView::Internal,
            ErrorKind::NotFound => ErrorKindView::NotFound,
            ErrorKind::Balance => ErrorKindView::Balance,
        }
    }
}

impl View for Error {
    type V = ErrorView;

    open spec fn view(&self) -> ErrorView {
        ErrorView { kind: self.kind@, context: self.context }
    }
}

/// A failure of the given kind with the given context.
pub open spec fn failure(kind: ErrorKindView, context: ErrorContext) -> ErrorView {
    ErrorView { kind, context: Some(context) }
}

/// A result with its failure seen as contracts speak of it.
pub open spec fn res_view<T>(r: Result<T, Error>) -> Result<T, ErrorView> {
    match r {
        Ok(v) => Ok(v),
        Err(e) => Err(e@),
    }
}

/// Failure kinds of the storage layer.
#[derive(Debug)]
pub enum ReposErrorKind {
    Internal,
    Unauthorized,
    /// A stored value would break a constraint; the string names it.
    Constraints(String),
}

/// Failure kinds of the key-management client.
#[derive(Copy, Clone, Eq, PartialEq, Debug, Structural)]
pub enum KeysClientErrorKind {
    Internal,
    Unauthorized,
    MalformedInput,
}

/// Failure kinds of the blockchain-gateway client.
#[derive(Copy, Clone, Eq, PartialEq, Debug, Structural)]
pub enum BlockchainClientErrorKind {
    Internal,
    Unauthorized,
    MalformedInput,
}

pub open spec fn repos_kind_to_kind(e: ReposErrorKind) -> ErrorKind {
    match e {
        ReposErrorKind::Internal => ErrorKind::Internal,
        ReposErrorKind::Unauthorized => ErrorKind::Unauthorized,
        ReposErrorKind::Constraints(s) => ErrorKind::InvalidInput(s),
    }
}

pub open spec fn keys_kind_to_kind(e: KeysClientErrorKind) -> ErrorKind {
    match e {
        KeysClientErrorKind::Internal => ErrorKind::Internal,
        KeysClientErrorKind::Unauthorized => ErrorKind::Unauthorized,
        KeysClientErrorKind::MalformedInput => ErrorKind::MalformedInput,
    }
}

pub open spec fn blockchain_kind_to_kind(e: BlockchainClientErrorKind) -> ErrorKind {
    match e {
        BlockchainClientErrorKind::Internal => ErrorKind::Internal,
        BlockchainClientErrorKind::Unauthorized => ErrorKind::Unauthorized,
        BlockchainClientErrorKind::MalformedInput => ErrorKind::MalformedInput,
    }
}

impl From<ReposErrorKind> for ErrorKind {
    fn from(e: ReposErrorKind) -> (r: ErrorKind) {
        match e {
            ReposErrorKind::Internal => ErrorKind::Internal,
            ReposErrorKind::Unauthorized => ErrorKind::Unauthorized,
            ReposErrorKind::Constraints(s) => ErrorKind::InvalidInput(s),
        }
    }
}

impl FromSpecImpl<ReposErrorKind> for ErrorKind {
    open spec fn obeys_from_spec() -> bool {
        true
    }

    open spec fn from_spec(e: ReposErrorKind) -> ErrorKind {
        repos_kind_to_kind(e)
    }
}

impl From<KeysClientErrorKind> for ErrorKind {
    fn from(e: KeysClientErrorKind) -> (r: ErrorKind) {
        match e {
            KeysClientErrorKind::Internal => ErrorKind::Internal,
            KeysClientErrorKind::Unauthorized => ErrorKind::Unauthorized,
            KeysClientErrorKind::MalformedInput => ErrorKind::MalformedInput,
        }
    }
}

impl FromSpecImpl<KeysClientErrorKind> for ErrorKind {
    open spec fn obeys_from_spec() -> bool {
        true
    }

    open spec fn from_spec(e: KeysClientErrorKind) -> ErrorKind {
        keys_kind_to_kind(e)
    }
}

impl From<BlockchainClientErrorKind> for ErrorKind {
    fn from(e: BlockchainClientErrorKind) -> (r: ErrorKind) {
        match e {
            BlockchainClientErrorKind::Internal => ErrorKind::Internal,
            BlockchainClientErrorKind::Unauthorized => ErrorKind::Unauthorized,
            BlockchainClientErrorKind::MalformedInput => ErrorKind::MalformedInput,
        }
    }
}

impl FromSpecImpl<BlockchainClientErrorKind> for ErrorKind {
    open spec fn obeys_from_spec() -> bool {
        true
    }

    open spec fn from_spec(e: BlockchainClientErrorKind) -> ErrorKind {
        blockchain_kind_to_kind(e)
    }
}

impl From<ReposErrorKind> for Error {
    fn from(e: ReposErrorKind) -> (r: Error) {
        let kind: ErrorKind = ErrorKind::from(e);
        Error { kind, context: None }
    }
}

impl FromSpecImpl<ReposErrorKind> for Error {
    open spec fn obeys_from_spec() -> bool {
        true
    }

    open spec fn from_spec(e: ReposErrorKind) -> Error {
        Error { kind: repos_kind_to_kind(e), context: None }
    }
}

} // verus!

verus! {

/// An `InvalidInput` kind that names the broken rule.
pub fn invalid_input(rule: &str) -> (r: ErrorKind)
    ensures
        r matches ErrorKind::InvalidInput(s) && s@ == rule@,
{
    broadcast use vstd::string::to_string_from_display_ensures_for_str;

    ErrorKind::InvalidInput(rule.to_string())
}

} // verus!
