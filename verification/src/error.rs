//! The error type shared by every store, ingest and selector operation.

use vstd::prelude::*;

verus! {

/// The category of a failure.
///
/// Callers rely on the kind, and on [`ErrorKind::NotFound`] in particular, to
/// implement idempotent get and delete.
#[derive(Clone, Copy, Debug, PartialEq, Eq, Structural, PartialOrd, Ord, Hash)]
#[non_exhaustive]
pub enum ErrorKind {
    /// The failure could not be classified.
    Unknown,
    /// A malformed digest string, a malformed filter or an illegal field path.
    InvalidArgument,
    /// A missing blob or a missing ingest reference.
    NotFound,
    /// The object to create is already there.
    AlreadyExists,
    /// The operation is not possible in the current state of the store.
    FailedPrecondition,
    /// The infrastructure below the store failed.
    Unavailable,
    /// The operation is not implemented.
    NotImplemented,
    /// A failure at the level of the file system.
    IOError,
    /// Any other failure.
    Other,
}

impl ErrorKind {
    /// The human-readable description of each kind.
    pub open spec fn text(self) -> Seq<char> {
        match self {
            ErrorKind::Unknown => "unknown"@,
            ErrorKind::InvalidArgument => "invalid argument"@,
            ErrorKind::NotFound => "not found"@,
            ErrorKind::AlreadyExists => "already exists"@,
            ErrorKind::FailedPrecondition => "failed precondition"@,
            ErrorKind::Unavailable => "unavailable"@,
            ErrorKind::NotImplemented => "not implemented"@,
            ErrorKind::IOError => "IO error"@,
            ErrorKind::Other => "other error"@,
        }
    }

    /// Returns the human-readable description of the kind.
    pub fn as_str(&self) -> (s: &'static str)
        ensures
            s@ == self.text(),
    {
        match *self {
            ErrorKind::Unknown => "unknown",
            ErrorKind::InvalidArgument => "invalid argument",
            ErrorKind::NotFound => "not found",
            ErrorKind::AlreadyExists => "already exists",
            ErrorKind::FailedPrecondition => "failed precondition",
            ErrorKind::Unavailable => "unavailable",
            ErrorKind::NotImplemented => "not implemented",
            ErrorKind::IOError => "IO error",
            ErrorKind::Other => "other error",
        }
    }
}

/// A kind together with a message that lives as long as the program.
#[derive(Debug)]
pub struct SimpleMessage {
    kind: ErrorKind,
    message: &'static str,
}

impl SimpleMessage {
    /// Pairs `kind` with `message`.
    pub fn new(kind: ErrorKind, message: &'static str) -> (m: Self)
        ensures
            m.kind() == kind,
            m.message() == message@,
    {
        Self { kind, message }
    }

    /// The kind given at construction.
    pub closed spec fn kind(&self) -> ErrorKind {
        self.kind
    }

    /// The message given at construction.
    pub closed spec fn message(&self) -> Seq<char> {
        self.message@
    }
}

/// A kind together with an owned description of what went wrong.
#[derive(Debug)]
pub struct Custom {
    kind: ErrorKind,
    error: String,
}

impl Custom {
    /// The kind of the failure.
    pub closed spec fn kind(&self) -> ErrorKind {
        self.kind
    }

    /// The description of the failure.
    pub closed spec fn message(&self) -> Seq<char> {
        self.error@
    }
}

/// The three shapes an error can take.
#[derive(Debug)]
pub enum ErrorData<C> {
    /// A bare kind.
    Simple(ErrorKind),
    /// A kind with a static message.
    SimpleMessage(&'static SimpleMessage),
    /// A kind with an owned payload.
    Custom(C),
}

/// The representation behind [`Error`].
#[derive(Debug)]
pub struct Repr(ErrorData<Box<Custom>>);

impl Repr {
    /// Builds the representation that holds `dat`.
    pub fn new(dat: ErrorData<Box<Custom>>) -> (r: Self)
        ensures
            r.data() == dat,
    {
        match dat {
            ErrorData::Simple(kind) => Self::new_simple(kind),
            ErrorData::SimpleMessage(simple_message) => Self::new_simple_message(simple_message),
            ErrorData::Custom(b) => Self::new_custom(b),
        }
    }

    /// Builds the representation of an error with an owned payload.
    pub fn new_custom(b: Box<Custom>) -> (r: Self)
        ensures
            r.data() == ErrorData::Custom(b),
    {
        Self(ErrorData::Custom(b))
    }

    /// Builds the representation of a bare kind.
    pub fn new_simple(kind: ErrorKind) -> (r: Self)
        ensures
            r.data() == ErrorData::<Box<Custom>>::Simple(kind),
    {
        Self(ErrorData::Simple(kind))
    }

    /// Builds the representation of a kind with a static message.
    pub fn new_simple_message(m: &'static SimpleMessage) -> (r: Self)
        ensures
            r.data() == ErrorData::<Box<Custom>>::SimpleMessage(m),
    {
        Self(ErrorData::SimpleMessage(m))
    }

    /// The data held.
    pub closed spec fn data(&self) -> ErrorData<Box<Custom>> {
        self.0
    }

    /// The kind of the error represented.
    pub open spec fn kind(&self) -> ErrorKind {
        match self.data() {
            ErrorData::Simple(kind) => kind,
            ErrorData::SimpleMessage(m) => m.kind(),
            ErrorData::Custom(c) => c.kind(),
        }
    }

    /// The message of the error represented; a bare kind speaks for itself.
    pub open spec fn message(&self) -> Seq<char> {
        match self.data() {
            ErrorData::Simple(kind) => kind.text(),
            ErrorData::SimpleMessage(m) => m.message(),
            ErrorData::Custom(c) => c.message(),
        }
    }
}

/// The error returned by every fallible operation of this crate.
#[derive(Debug)]
pub struct Error {
    repr: Repr,
}

impl Error {
    /// The kind of this error.
    pub closed spec fn kind_spec(&self) -> ErrorKind {
        self.repr.kind()
    }

    /// The message of this error.
    pub closed spec fn message_spec(&self) -> Seq<char> {
        self.repr.message()
    }

    /// The error that carries `kind` and nothing else.
    pub closed spec fn simple(kind: ErrorKind) -> Error {
        Error { repr: Repr(ErrorData::Simple(kind)) }
    }

    /// An error made of a bare kind has that kind, and the kind's description
    /// as its message.
    pub proof fn lemma_simple(kind: ErrorKind)
        ensures
            Error::simple(kind).kind_spec() == kind,
            Error::simple(kind).message_spec() == kind.text(),
    {
    }

    /// Creates an error of the given kind that carries `error` as its message.
    pub fn new(kind: ErrorKind, error: &str) -> (e: Error)
        ensures
            e.kind_spec() == kind,
            e.message_spec() == error@,
    {
        Self::_new(kind, error.to_owned())
    }

    /// Creates an error of kind [`ErrorKind::Other`] that carries `error` as
    /// its message.
    pub fn other(error: &str) -> (e: Error)
        ensures
            e.kind_spec() == ErrorKind::Other,
            e.message_spec() == error@,
    {
        Self::_new(ErrorKind::Other, error.to_owned())
    }

    /// Creates an error of the given kind from an owned message.
    pub fn _new(kind: ErrorKind, error: String) -> (e: Error)
        ensures
            e.kind_spec() == kind,
            e.message_spec() == error@,
    {
        Error { repr: Repr::new_custom(Box::new(Custom { kind, error })) }
    }

    /// Creates an error from a message that lives as long as the program.
    pub fn from_static_message(msg: &'static SimpleMessage) -> (e: Error)
        ensures
            e.kind_spec() == msg.kind(),
            e.message_spec() == msg.message(),
    {
        Self { repr: Repr::new_simple_message(msg) }
    }

    /// Returns the kind of this error.
    pub fn kind(&self) -> (k: ErrorKind)
        ensures
            k == self.kind_spec(),
    {
        match &self.repr.0 {
            ErrorData::Simple(kind) => *kind,
            ErrorData::SimpleMessage(m) => m.kind,
            ErrorData::Custom(c) => c.kind,
        }
    }

    /// Returns the message of this error.
    pub fn message(&self) -> (m: String)
        ensures
            m@ == self.message_spec(),
    {
        match &self.repr.0 {
            ErrorData::Simple(kind) => kind.as_str().to_owned(),
            ErrorData::SimpleMessage(m) => m.message.to_owned(),
            ErrorData::Custom(c) => c.error.clone(),
        }
    }
}

/// Whether `r` is a failure of the given kind.
pub open spec fn fails_with<T>(r: Result<T, Error>, kind: ErrorKind) -> bool {
    match r {
        Ok(_) => false,
        Err(e) => e.kind_spec() == kind,
    }
}

impl From<ErrorKind> for Error {
    /// Converts a kind into an error that carries the kind alone.
    fn from(kind: ErrorKind) -> (e: Error) {
        Error { repr: Repr::new_simple(kind) }
    }
}

impl vstd::std_specs::convert::FromSpecImpl<ErrorKind> for Error {
    open spec fn obeys_from_spec() -> bool {
        true
    }

    open spec fn from_spec(kind: ErrorKind) -> Error {
        Error::simple(kind)
    }
}

} // verus!
