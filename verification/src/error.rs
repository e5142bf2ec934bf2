//! What can go wrong in a transfer.

use vstd::prelude::*;

verus! {

/// The error of the rendezvous server and of the key exchange, carried through
/// unread.
#[verifier::external_type_specification]
#[verifier::external_body]
pub struct ExWormholeError(magic_wormhole::WormholeError);

/// The error of a running file transfer, carried through unread.
#[verifier::external_type_specification]
#[verifier::external_body]
pub struct ExTransferError(magic_wormhole::transfer::TransferError);

/// The error of the file system, carried through unread.
#[verifier::external_type_specification]
#[verifier::external_body]
pub struct ExIoError(std::io::Error);

/// The kinds of file system errors that are told apart.
#[derive(Clone, Copy, Debug, PartialEq, Eq, Structural)]
pub enum IoErrorKind {
    /// The file to be created is there already.
    AlreadyExists,
    /// An argument cannot be used.
    InvalidInput,
    /// Anything else.
    Other,
}

/// An error of the file system, or one that is reported in the same way.
#[derive(Debug)]
pub enum IoFailure {
    /// Raised by this library.
    Raised { kind: IoErrorKind, message: String },
    /// Reported by the operating system.
    System(std::io::Error),
}

/// Why a transfer did not happen.
#[derive(Debug)]
pub enum Error {
    /// The text is not a wormhole code.
    InvalidCode(String),
    /// The transfer was cancelled.
    Cancelled,
    /// The offer was accepted or rejected before.
    AlreadyConsumed,
    /// The wormhole could not be opened.
    Wormhole(magic_wormhole::WormholeError),
    /// The transfer itself failed.
    Transfer(magic_wormhole::transfer::TransferError),
    /// The file system refused.
    Io(IoFailure),
}

/// An [`IoFailure`], with its message as a sequence of characters.
pub enum IoFailureView {
    Raised { kind: IoErrorKind, message: Seq<char> },
    System(std::io::Error),
}

/// An [`Error`], with its texts as sequences of characters.
pub enum ErrorView {
    InvalidCode(Seq<char>),
    Cancelled,
    AlreadyConsumed,
    Wormhole(magic_wormhole::WormholeError),
    Transfer(magic_wormhole::transfer::TransferError),
    Io(IoFailureView),
}

impl View for IoFailure {
    type V = IoFailureView;

    open spec fn view(&self) -> IoFailureView {
        match *self {
            IoFailure::Raised { kind, message } => IoFailureView::Raised { kind, message: message@ },
            IoFailure::System(e) => IoFailureView::System(e),
        }
    }
}

impl View for Error {
    type V = ErrorView;

    open spec fn view(&self) -> ErrorView {
        match *self {
            Error::InvalidCode(code) => ErrorView::InvalidCode(code@),
            Error::Cancelled => ErrorView::Cancelled,
            Error::AlreadyConsumed => ErrorView::AlreadyConsumed,
            Error::Wormhole(e) => ErrorView::Wormhole(e),
            Error::Transfer(e) => ErrorView::Transfer(e),
            Error::Io(e) => ErrorView::Io(e@),
        }
    }
}

/// What is reported for a path that names no file.
pub open spec fn no_file_name() -> ErrorView {
    ErrorView::Io(
        IoFailureView::Raised {
            kind: IoErrorKind::InvalidInput,
            message: "path has no file name"@,
        },
    )
}

/// What is reported where every name to save under is taken.
pub open spec fn no_free_name() -> ErrorView {
    ErrorView::Io(
        IoFailureView::Raised {
            kind: IoErrorKind::AlreadyExists,
            message: "could not find a free file name"@,
        },
    )
}

/// What `message` says of an error: `text` is its own sentence, or, for an error
/// that was carried through, what that error says of itself.
pub open spec fn is_message(e: Error, text: String) -> bool {
    match e {
        Error::InvalidCode(code) => text@ == "invalid wormhole code: "@ + code@,
        Error::Cancelled => text@ == "the transfer was cancelled"@,
        Error::AlreadyConsumed => text@ == "this transfer was already accepted or rejected"@,
        Error::Wormhole(inner) => vstd::string::to_string_from_display_ensures(&inner, text),
        Error::Transfer(inner) => vstd::string::to_string_from_display_ensures(&inner, text),
        Error::Io(IoFailure::Raised { kind, message }) => text@ == message@,
        Error::Io(IoFailure::System(inner)) => vstd::string::to_string_from_display_ensures(
            &inner,
            text,
        ),
    }
}

/// What a message says: of a bad code, the code itself, whole; of what was called off
/// or answered before, a sentence of its own; of what this library raised, the words
/// that it was raised with. The two errors that are raised say what was wrong.
pub proof fn messages_say_what_happened(e: Error, text: String)
    requires
        is_message(e, text),
    ensures
        match e {
            Error::InvalidCode(code) => text@ == "invalid wormhole code: "@ + code@,
            Error::Cancelled => text@ == "the transfer was cancelled"@,
            Error::AlreadyConsumed => text@ == "this transfer was already accepted or rejected"@,
            Error::Wormhole(inner) => vstd::string::to_string_from_display_ensures(&inner, text),
            Error::Transfer(inner) => vstd::string::to_string_from_display_ensures(&inner, text),
            Error::Io(IoFailure::System(inner)) => vstd::string::to_string_from_display_ensures(
                &inner,
                text,
            ),
            Error::Io(IoFailure::Raised { kind, message }) => text@ == message@,
        },
        e@ == no_file_name() ==> text@ == "path has no file name"@,
        e@ == no_free_name() ==> text@ == "could not find a free file name"@,
{
}

impl Error {
    /// The error as a sentence.
    pub fn message(&self) -> (text: String)
        ensures
            is_message(*self, text),
    {
        match self {
            Error::InvalidCode(code) => "invalid wormhole code: ".to_owned().concat(code.as_str()),
            Error::Cancelled => "the transfer was cancelled".to_owned(),
            Error::AlreadyConsumed => "this transfer was already accepted or rejected".to_owned(),
            Error::Wormhole(inner) => inner.to_string(),
            Error::Transfer(inner) => inner.to_string(),
            Error::Io(IoFailure::Raised { message, .. }) => message.clone(),
            Error::Io(IoFailure::System(inner)) => inner.to_string(),
        }
    }
}

/// The error for a path that names no file.
pub(crate) fn raise_no_file_name() -> (e: Error)
    ensures
        e@ == no_file_name(),
        e matches Error::Io(IoFailure::Raised { kind: IoErrorKind::InvalidInput, message })
            && message@ == "path has no file name"@,
{
    Error::Io(
        IoFailure::Raised {
            kind: IoErrorKind::InvalidInput,
            message: "path has no file name".to_owned(),
        },
    )
}

/// The error for a name that is taken with every number behind it.
pub(crate) fn raise_no_free_name() -> (e: Error)
    ensures
        e@ == no_free_name(),
        e matches Error::Io(IoFailure::Raised { kind: IoErrorKind::AlreadyExists, message })
            && message@ == "could not find a free file name"@,
{
    Error::Io(
        IoFailure::Raised {
            kind: IoErrorKind::AlreadyExists,
            message: "could not find a free file name".to_owned(),
        },
    )
}

impl From<magic_wormhole::WormholeError> for Error {
    fn from(e: magic_wormhole::WormholeError) -> (r: Error)
        ensures
            r == Error::Wormhole(e),
    {
        Error::Wormhole(e)
    }
}

impl vstd::std_specs::convert::FromSpecImpl<magic_wormhole::WormholeError> for Error {
    open spec fn obeys_from_spec() -> bool {
        true
    }

    open spec fn from_spec(e: magic_wormhole::WormholeError) -> Error {
        Error::Wormhole(e)
    }
}

impl From<magic_wormhole::transfer::TransferError> for Error {
    fn from(e: magic_wormhole::transfer::TransferError) -> (r: Error)
        ensures
            r == Error::Transfer(e),
    {
        Error::Transfer(e)
    }
}

impl vstd::std_specs::convert::FromSpecImpl<magic_wormhole::transfer::TransferError> for Error {
    open spec fn obeys_from_spec() -> bool {
        true
    }

    open spec fn from_spec(e: magic_wormhole::transfer::TransferError) -> Error {
        Error::Transfer(e)
    }
}

impl From<std::io::Error> for Error {
    fn from(e: std::io::Error) -> (r: Error)
        ensures
            r == Error::Io(IoFailure::System(e)),
    {
        Error::Io(IoFailure::System(e))
    }
}

impl vstd::std_specs::convert::FromSpecImpl<std::io::Error> for Error {
    open spec fn obeys_from_spec() -> bool {
        true
    }

    open spec fn from_spec(e: std::io::Error) -> Error {
        Error::Io(IoFailure::System(e))
    }
}

} // verus!
