//! What an app sees of a transfer: the offer that it may accept or reject, and the
//! reports that it gets while a transfer runs.

use vstd::prelude::*;

use crate::accept;
use crate::accept::{AcceptAction, AcceptSession};
use crate::error::{Error, ErrorView};
use crate::offer::{PendingReceive, PendingView};

verus! {

/// Implemented by the app to observe a running transfer.
pub trait TransferListener: Send + Sync {
    /// The wormhole code the receiver must use (fires once, senders only).
    fn on_code(&self, code: String);

    /// How the transit connection was established (direct vs relay).
    fn on_transit(&self, info: String);

    /// Bytes done / bytes total.
    fn on_progress(&self, done: u64, total: u64);
}

/// An [`IncomingFile`], as a model: what it shows, and the offer as long as
/// nobody has answered it.
pub struct IncomingView<R> {
    pub name: Seq<char>,
    pub size: u64,
    pub pending: Option<PendingView<R>>,
}

/// An offer that nobody has answered yet.
pub open spec fn incoming<R>(pending: PendingView<R>) -> IncomingView<R> {
    IncomingView { name: pending.file_name, size: pending.file_size, pending: Some(pending) }
}

impl<R> IncomingView<R> {
    /// The file after it was accepted or rejected: it shows what it showed, and the
    /// offer is gone.
    pub open spec fn answered(self) -> IncomingView<R> {
        IncomingView { name: self.name, size: self.size, pending: None }
    }

    /// The file after `n` answers.
    pub open spec fn answered_times(self, n: nat) -> IncomingView<R>
        decreases n,
    {
        if n == 0 {
            self
        } else {
            self.answered_times((n - 1) as nat).answered()
        }
    }
}

/// An offer is answered once: whoever comes after the first finds it gone, and
/// name and size can still be read.
pub proof fn offers_are_answered_once<R>(file: IncomingView<R>, n: nat)
    ensures
        file.answered_times(n).name == file.name,
        file.answered_times(n).size == file.size,
        n > 0 ==> file.answered_times(n).pending is None,
    decreases n,
{
    if n > 0 {
        offers_are_answered_once(file, (n - 1) as nat);
    }
}

/// A file shows the name and the size of its offer as they are, before and after the
/// answer, and gives out that very offer.
pub proof fn files_show_their_offer<R>(pending: PendingView<R>, n: nat)
    ensures
        incoming(pending).pending == Some(pending),
        incoming(pending).answered_times(n).name == pending.file_name,
        incoming(pending).answered_times(n).size == pending.file_size,
        incoming(pending).answered_times(n).pending is Some <==> n == 0,
{
    offers_are_answered_once(incoming(pending), n);
}

/// A pending file offer. Look at name and size, then accept or reject it.
#[derive(Debug)]
pub struct IncomingFile<R> {
    name: String,
    size: u64,
    request: Option<PendingReceive<R>>,
}

impl<R> View for IncomingFile<R> {
    type V = IncomingView<R>;

    closed spec fn view(&self) -> IncomingView<R> {
        IncomingView {
            name: self.name@,
            size: self.size,
            pending: match self.request {
                Some(pending) => Some(pending@),
                None => None,
            },
        }
    }
}

impl<R> IncomingFile<R> {
    /// A file whose offer waits for an answer.
    pub fn new(pending: PendingReceive<R>) -> (file: IncomingFile<R>)
        ensures
            file@ == incoming(pending@),
            file@.name == pending.file_name@,
            file@.size == pending.file_size,
            file@.pending matches Some(offered) && offered.file_name == pending.file_name@
                && offered.file_size == pending.file_size && offered.request == pending.request,
    {
        IncomingFile {
            name: pending.file_name.clone(),
            size: pending.file_size,
            request: Some(pending),
        }
    }

    /// The name to save the file under.
    pub fn file_name(&self) -> (name: String)
        ensures
            name@ == self@.name,
    {
        self.name.clone()
    }

    /// The size of the file in bytes.
    pub fn file_size(&self) -> (size: u64)
        ensures
            size == self@.size,
    {
        self.size
    }

    /// Takes the offer out, if it is still there.
    fn take(&mut self) -> (r: Result<PendingReceive<R>, Error>)
        ensures
            final(self)@ == old(self)@.answered(),
            final(self)@.name == old(self)@.name,
            final(self)@.size == old(self)@.size,
            final(self)@.pending is None,
            match old(self)@.pending {
                Some(pending) => r matches Ok(p) && p@ == pending,
                None => r matches Err(e) && e@ == ErrorView::AlreadyConsumed,
            },
            old(self)@.pending is None ==> r matches Err(Error::AlreadyConsumed),
    {
        match self.request.take() {
            Some(pending) => Ok(pending),
            None => Err(Error::AlreadyConsumed),
        }
    }

    /// Accepts the offer: gives out its handle, and starts to save the file.
    pub fn accept(&mut self) -> (r: Result<(R, AcceptSession, AcceptAction), Error>)
        ensures
            final(self)@ == old(self)@.answered(),
            final(self)@.name == old(self)@.name,
            final(self)@.size == old(self)@.size,
            final(self)@.pending is None,
            match old(self)@.pending {
                Some(pending) => r matches Ok(parts) && parts.0 == pending.request && (
                    parts.1@,
                    parts.2@,
                ) == accept::accept_begin(pending.file_name),
                None => r matches Err(e) && e@ == ErrorView::AlreadyConsumed,
            },
            match old(self)@.pending {
                Some(pending) => r matches Ok(parts) && (parts.2 matches AcceptAction::CreateFile {
                    name,
                } && name@ == pending.file_name),
                None => r matches Err(Error::AlreadyConsumed),
            },
    {
        match self.take() {
            Ok(pending) => Ok(pending.accept()),
            Err(e) => Err(e),
        }
    }

    /// Declines the offer: gives out the handle to reject it with.
    pub fn reject(&mut self) -> (r: Result<R, Error>)
        ensures
            final(self)@ == old(self)@.answered(),
            final(self)@.name == old(self)@.name,
            final(self)@.size == old(self)@.size,
            final(self)@.pending is None,
            match old(self)@.pending {
                Some(pending) => r matches Ok(request) && request == pending.request,
                None => r matches Err(e) && e@ == ErrorView::AlreadyConsumed,
            },
            old(self)@.pending is None ==> r matches Err(Error::AlreadyConsumed),
    {
        match self.take() {
            Ok(pending) => Ok(pending.reject()),
            Err(e) => Err(e),
        }
    }
}

} // verus!
