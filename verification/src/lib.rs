//! The engine of a wormhole file transfer, without its input and output.
//!
//! Everything that is decided in a transfer is decided here, by functions with
//! contracts: which mailbox is opened, under which name a file is saved, what an
//! event leads to and which error is reported. Sending, waiting for an offer,
//! saving a file and receiving are sessions: each says what is to be done next and
//! is told what came of it. Whoever runs a session talks to the network and to the
//! file system.
//!
//! Next to the functions stand the laws of the whole: a received file stays in its
//! directory and overwrites nothing, an offer is answered once, a transfer can be
//! called off while it waits.

pub mod accept;
pub mod error;
pub mod file_name;
pub mod incoming;
pub mod mailbox;
pub mod offer;
pub mod progress;
pub mod receive;
pub mod send;
pub mod test_file;
pub mod text;
pub mod transit;
pub mod unique_name;

pub use accept::{AcceptAction, AcceptEvent, AcceptSession};
pub use error::{Error, IoErrorKind, IoFailure};
pub use file_name::sanitize_file_name;
pub use incoming::{IncomingFile, TransferListener};
pub use mailbox::{MailboxRequest, DEFAULT_CODE_LENGTH};
pub use offer::{request_receive, PendingReceive, RequestAction, RequestEvent, RequestSession};
pub use progress::ProgressMeter;
pub use receive::{receive_file, ReceiveAction, ReceiveEvent, ReceiveSession};
pub use send::{send_file, SendAction, SendEvent, SendSession};
pub use test_file::{create_test_file, TestFile};
pub use transit::{
    default_relay_hints, describe_transit, ConnectionType, DirectHint, RelayHint, TransitInfo,
};
pub use unique_name::{
    candidate_name, create_unique, split_name, CreateUnique, OpenOutcome, UniqueStep,
};
