//! Waiting for the sender's offer, as a session: it says what is to be done next,
//! and is told what came of it. Nothing is accepted yet.

use vstd::prelude::*;

use crate::accept;
use crate::accept::{AcceptAction, AcceptSession};
use crate::error::{Error, ErrorView};
use crate::file_name;
use crate::mailbox;
use crate::mailbox::{MailboxRequest, MailboxRequestView};
use crate::send;
use crate::send::{SendActionView, SendPhase, SendView};

verus! {

/// A file offer that has been received but not yet accepted. `R` is the handle
/// that the transfer layer accepts or rejects it with.
#[derive(Debug)]
pub struct PendingReceive<R> {
    /// The name to save the file under.
    pub file_name: String,
    /// The size of the file in bytes.
    pub file_size: u64,
    /// The handle of the offer.
    pub request: R,
}

/// A [`PendingReceive`], with its name as a sequence of characters.
pub struct PendingView<R> {
    pub file_name: Seq<char>,
    pub file_size: u64,
    pub request: R,
}

impl<R> View for PendingReceive<R> {
    type V = PendingView<R>;

    open spec fn view(&self) -> PendingView<R> {
        PendingView {
            file_name: self.file_name@,
            file_size: self.file_size,
            request: self.request,
        }
    }
}

/// How far a session has come.
#[derive(Clone, Copy, Debug, PartialEq, Eq, Structural)]
pub enum RequestPhase {
    /// The mailbox is being opened.
    Opening,
    /// The sender is waited for.
    Connecting,
    /// The offer is waited for.
    Requesting,
    /// It is over.
    Finished,
}

/// What is to be done next.
#[derive(Debug)]
pub enum RequestAction<R> {
    /// Open the mailbox.
    OpenMailbox(MailboxRequest),
    /// Wait for the sender and agree on a key.
    Connect,
    /// Wait for the offer.
    RequestFile,
    /// Return this.
    Finish(Result<PendingReceive<R>, Error>),
}

/// What came of an action.
#[derive(Debug)]
pub enum RequestEvent<R> {
    /// The mailbox is open.
    MailboxOpened,
    /// The sender is there, and the key is agreed on.
    WormholeConnected,
    /// Opening the mailbox or meeting the sender failed.
    WormholeFailed(magic_wormhole::WormholeError),
    /// The sender offers a file, under a name that nobody has looked at.
    Offered { file_name: String, file_size: u64, request: R },
    /// The transfer layer gave up waiting.
    NothingOffered,
    /// Waiting for the offer failed.
    TransferFailed(magic_wormhole::transfer::TransferError),
    /// The user called it off before the action was done.
    Cancelled,
}

/// A session, as a model.
pub struct RequestView {
    pub phase: RequestPhase,
}

/// A [`RequestAction`], with its texts as sequences of characters.
pub enum RequestActionView<R> {
    OpenMailbox(MailboxRequestView),
    Connect,
    RequestFile,
    Finish(Result<PendingView<R>, ErrorView>),
}

/// A [`RequestEvent`], with its text as a sequence of characters.
pub enum RequestEventView<R> {
    MailboxOpened,
    WormholeConnected,
    WormholeFailed(magic_wormhole::WormholeError),
    Offered { file_name: Seq<char>, file_size: u64, request: R },
    NothingOffered,
    TransferFailed(magic_wormhole::transfer::TransferError),
    Cancelled,
}

impl<R> View for RequestAction<R> {
    type V = RequestActionView<R>;

    open spec fn view(&self) -> RequestActionView<R> {
        match *self {
            RequestAction::OpenMailbox(request) => RequestActionView::OpenMailbox(request@),
            RequestAction::Connect => RequestActionView::Connect,
            RequestAction::RequestFile => RequestActionView::RequestFile,
            RequestAction::Finish(Ok(pending)) => RequestActionView::Finish(Ok(pending@)),
            RequestAction::Finish(Err(e)) => RequestActionView::Finish(Err(e@)),
        }
    }
}

impl<R> View for RequestEvent<R> {
    type V = RequestEventView<R>;

    open spec fn view(&self) -> RequestEventView<R> {
        match *self {
            RequestEvent::MailboxOpened => RequestEventView::MailboxOpened,
            RequestEvent::WormholeConnected => RequestEventView::WormholeConnected,
            RequestEvent::WormholeFailed(e) => RequestEventView::WormholeFailed(e),
            RequestEvent::Offered { file_name, file_size, request } => RequestEventView::Offered {
                file_name: file_name@,
                file_size,
                request,
            },
            RequestEvent::NothingOffered => RequestEventView::NothingOffered,
            RequestEvent::TransferFailed(e) => RequestEventView::TransferFailed(e),
            RequestEvent::Cancelled => RequestEventView::Cancelled,
        }
    }
}

/// How a session for `code` begins: the text has to be a code.
pub open spec fn request_begin<R>(code: Seq<char>) -> (RequestView, RequestActionView<R>) {
    match mailbox::receiver_mailbox(code) {
        Ok(request) => (
            RequestView { phase: RequestPhase::Opening },
            RequestActionView::OpenMailbox(request),
        ),
        Err(e) => (
            RequestView { phase: RequestPhase::Finished },
            RequestActionView::Finish(Err(e)),
        ),
    }
}

impl RequestView {
    /// The end of a session that failed.
    pub open spec fn failed<R>(e: ErrorView) -> (RequestView, Option<RequestActionView<R>>) {
        (
            RequestView { phase: RequestPhase::Finished },
            Some(RequestActionView::Finish(Err(e))),
        )
    }

    /// The session after `event`, and what it wants then. The name in an offer is
    /// cleaned before anybody sees it. An event that does not answer the pending
    /// action changes nothing and wants nothing.
    pub open spec fn after<R>(self, event: RequestEventView<R>) -> (
        RequestView,
        Option<RequestActionView<R>>,
    ) {
        match (self.phase, event) {
            (RequestPhase::Opening, RequestEventView::MailboxOpened) => (
                RequestView { phase: RequestPhase::Connecting },
                Some(RequestActionView::Connect),
            ),
            (RequestPhase::Connecting, RequestEventView::WormholeConnected) => (
                RequestView { phase: RequestPhase::Requesting },
                Some(RequestActionView::RequestFile),
            ),
            (
                RequestPhase::Requesting,
                RequestEventView::Offered { file_name, file_size, request },
            ) => (
                RequestView { phase: RequestPhase::Finished },
                Some(
                    RequestActionView::Finish(
                        Ok(
                            PendingView {
                                file_name: file_name::sanitized(file_name),
                                file_size,
                                request,
                            },
                        ),
                    ),
                ),
            ),
            (RequestPhase::Requesting, RequestEventView::NothingOffered) => Self::failed(
                ErrorView::Cancelled,
            ),
            (
                RequestPhase::Opening | RequestPhase::Connecting,
                RequestEventView::WormholeFailed(e),
            ) => Self::failed(ErrorView::Wormhole(e)),
            (RequestPhase::Requesting, RequestEventView::TransferFailed(e)) => Self::failed(
                ErrorView::Transfer(e),
            ),
            (
                RequestPhase::Opening | RequestPhase::Connecting | RequestPhase::Requesting,
                RequestEventView::Cancelled,
            ) => Self::failed(ErrorView::Cancelled),
            _ => (self, None),
        }
    }

    /// The actions that the session asks for while it is told `events`.
    pub open spec fn run<R>(self, events: Seq<RequestEventView<R>>) -> Seq<RequestActionView<R>>
        decreases events.len(),
    {
        if events.len() == 0 {
            Seq::empty()
        } else {
            let (next, wanted) = self.after(events[0]);
            let rest = next.run(events.skip(1));
            match wanted {
                Some(action) => seq![action] + rest,
                None => rest,
            }
        }
    }

    /// The session once it has been told `events`.
    pub open spec fn after_all<R>(self, events: Seq<RequestEventView<R>>) -> RequestView
        decreases events.len(),
    {
        if events.len() == 0 {
            self
        } else {
            self.after(events[0]).0.after_all(events.skip(1))
        }
    }

    /// How many actions are still to come, at most.
    pub open spec fn steps_left(self) -> nat {
        match self.phase {
            RequestPhase::Opening => 3,
            RequestPhase::Connecting => 2,
            RequestPhase::Requesting => 1,
            RequestPhase::Finished => 0,
        }
    }
}

/// Paired devices meet without typing anything: a sender that is given a code
/// claims the mailbox of that exact code, and a receiver that is given the same
/// code opens the same one, which has to be claimed already.
pub proof fn paired_devices_meet<R>(path: Seq<char>, code: Seq<char>)
    requires
        file_name::named_file(path) is Some,
        mailbox::is_code(code),
    ensures
        send::send_begin(path, Some(code)) == (
            SendView { file_name: file_name::named_file(path)->0, phase: SendPhase::Opening },
            SendActionView::OpenMailbox(MailboxRequestView::Connect { code, allocate: true }),
        ),
        request_begin::<R>(code) == (
            RequestView { phase: RequestPhase::Opening },
            RequestActionView::<R>::OpenMailbox(
                MailboxRequestView::Connect { code, allocate: false },
            ),
        ),
{
}

/// The user can stop waiting at any time.
pub proof fn waiting_can_be_cancelled<R>(session: RequestView)
    requires
        session.phase != RequestPhase::Finished,
    ensures
        session.after(RequestEventView::<R>::Cancelled) == RequestView::failed::<R>(
            ErrorView::Cancelled,
        ),
{
}

/// A session that is over asks for nothing any more.
pub proof fn finished_waiting_stays_finished<R>(
    session: RequestView,
    events: Seq<RequestEventView<R>>,
)
    requires
        session.phase == RequestPhase::Finished,
    ensures
        session.run(events) == Seq::<RequestActionView<R>>::empty(),
    decreases events.len(),
{
    if events.len() > 0 {
        finished_waiting_stays_finished(session, events.skip(1));
    }
}

/// Every run is short: whatever the events are, no more actions follow than the
/// phase leaves room for.
pub proof fn waiting_ends<R>(session: RequestView, events: Seq<RequestEventView<R>>)
    ensures
        session.run(events).len() <= session.steps_left(),
    decreases events.len(),
{
    if events.len() > 0 {
        let (next, wanted) = session.after(events[0]);
        waiting_ends(next, events.skip(1));
    }
}

/// Every run keeps its order, however it ends: the sender is waited for first, the
/// offer second, and an offer is handed on third, or none of it happens.
pub proof fn waiting_keeps_its_order<R>(
    session: RequestView,
    events: Seq<RequestEventView<R>>,
    i: int,
)
    requires
        0 <= i < session.run(events).len(),
    ensures
        ({
            let action = session.run(events)[i];
            let place = i + 3 - session.steps_left();
            &&& action is Connect ==> place == 0
            &&& action is RequestFile ==> place == 1
            &&& action matches RequestActionView::Finish(Ok(_)) ==> place == 2
            &&& action is OpenMailbox ==> false
            &&& action matches RequestActionView::Finish(_) ==> i == session.run(events).len() - 1
        }),
    decreases events.len(),
{
    let (next, wanted) = session.after(events[0]);
    let rest = next.run(events.skip(1));
    if wanted is Some {
        assert(session.run(events) == seq![wanted->0] + rest);
        if i > 0 {
            if next.phase == RequestPhase::Finished {
                finished_waiting_stays_finished(next, events.skip(1));
            }
            waiting_keeps_its_order(next, events.skip(1), i - 1);
        } else if next.phase == RequestPhase::Finished {
            finished_waiting_stays_finished(next, events.skip(1));
        }
    } else {
        waiting_keeps_its_order(next, events.skip(1), i);
    }
}

/// Whatever the sender calls its file, an offer that is handed on has a plain
/// name.
pub proof fn offers_have_plain_names<R>(
    session: RequestView,
    events: Seq<RequestEventView<R>>,
    i: int,
)
    requires
        0 <= i < session.run(events).len(),
    ensures
        session.run(events)[i] matches RequestActionView::Finish(Ok(pending))
            ==> file_name::is_plain(pending.file_name),
    decreases events.len(),
{
    let (next, wanted) = session.after(events[0]);
    let rest = next.run(events.skip(1));
    if wanted is Some {
        assert(session.run(events) == seq![wanted->0] + rest);
        if i > 0 {
            offers_have_plain_names(next, events.skip(1), i - 1);
        } else if let RequestEventView::Offered { file_name, .. } = events[0] {
            file_name::sanitized_is_plain(file_name);
        }
    } else {
        offers_have_plain_names(next, events.skip(1), i);
    }
}

/// How waiting begins: with the mailbox of the code, which has to be there already.
/// A text that is no code is refused.
pub proof fn waiting_begins_with_the_mailbox<R>(code: Seq<char>)
    ensures
        request_begin::<R>(code).1 == if mailbox::is_code(code) {
            RequestActionView::<R>::OpenMailbox(
                MailboxRequestView::Connect { code, allocate: false },
            )
        } else {
            RequestActionView::<R>::Finish(Err(ErrorView::InvalidCode(code)))
        },
{
}

/// One more event adds its answer to the run, and nothing else changes.
proof fn lemma_one_more<R>(
    session: RequestView,
    events: Seq<RequestEventView<R>>,
    event: RequestEventView<R>,
)
    ensures
        session.after_all(events.push(event)) == session.after_all(events).after(event).0,
        session.run(events.push(event)) == match session.after_all(events).after(event).1 {
            Some(action) => session.run(events).push(action),
            None => session.run(events),
        },
    decreases events.len(),
{
    reveal_with_fuel(RequestView::run, 2);
    reveal_with_fuel(RequestView::after_all, 2);
    let told = events.push(event);
    if events.len() == 0 {
        assert(told.skip(1) =~= Seq::<RequestEventView<R>>::empty());
        assert(session.run(told) =~= match session.after(event).1 {
            Some(action) => seq![action],
            None => Seq::<RequestActionView<R>>::empty(),
        });
    } else {
        let (next, wanted) = session.after(events[0]);
        assert(told[0] == events[0]);
        assert(told.skip(1) =~= events.skip(1).push(event));
        lemma_one_more(next, events.skip(1), event);
        if wanted is Some {
            let rest = next.run(events.skip(1));
            if let Some(action) = next.after_all(events.skip(1)).after(event).1 {
                assert(seq![wanted->0] + rest.push(action) =~= (seq![wanted->0] + rest).push(
                    action,
                ));
            }
        }
    }
}

/// The phase is that of the action which was asked for last.
proof fn lemma_pending<R>(code: Seq<char>, events: Seq<RequestEventView<R>>)
    ensures
        ({
            let (session, first) = request_begin::<R>(code);
            let asked = seq![first] + session.run(events);
            session.after_all(events).phase == match asked.last() {
                RequestActionView::OpenMailbox(_) => RequestPhase::Opening,
                RequestActionView::Connect => RequestPhase::Connecting,
                RequestActionView::RequestFile => RequestPhase::Requesting,
                RequestActionView::Finish(_) => RequestPhase::Finished,
            }
        }),
    decreases events.len(),
{
    let (session, first) = request_begin::<R>(code);
    if events.len() > 0 {
        let before = events.drop_last();
        lemma_pending(code, before);
        assert(before.push(events.last()) =~= events);
        lemma_one_more(session, before, events.last());
    }
}

/// What a session answers, in every run, by what it asked for last and what it is
/// told then. The open mailbox leads to the wait for the sender, the sender to the
/// wait for the offer, and the offer is handed on: its size and its handle as they
/// are, and its name cleaned. A failure, told while what failed is waited for, ends
/// the session with that very error. Where nothing is offered the session ends as
/// if it was called off, and it can be called off at any time. Nothing else has an
/// answer.
pub proof fn waiting_answers_what_it_is_told<R>(
    code: Seq<char>,
    events: Seq<RequestEventView<R>>,
    event: RequestEventView<R>,
)
    ensures
        ({
            let (session, first) = request_begin::<R>(code);
            let asked = seq![first] + session.run(events);
            let then_asked = seq![first] + session.run(events.push(event));
            match (asked.last(), event) {
                (RequestActionView::OpenMailbox(_), RequestEventView::MailboxOpened) => {
                    then_asked == asked.push(RequestActionView::Connect)
                },
                (RequestActionView::Connect, RequestEventView::WormholeConnected) => {
                    then_asked == asked.push(RequestActionView::RequestFile)
                },
                (
                    RequestActionView::RequestFile,
                    RequestEventView::Offered { file_name, file_size, request },
                ) => {
                    &&& then_asked.len() == asked.len() + 1
                    &&& then_asked.drop_last() == asked
                    &&& then_asked.last() matches RequestActionView::Finish(Ok(pending))
                    &&& pending.file_name == file_name::sanitized(file_name)
                    &&& pending.file_size == file_size
                    &&& pending.request == request
                },
                (RequestActionView::RequestFile, RequestEventView::NothingOffered) => {
                    then_asked == asked.push(RequestActionView::Finish(Err(ErrorView::Cancelled)))
                },
                (
                    RequestActionView::OpenMailbox(_) | RequestActionView::Connect,
                    RequestEventView::WormholeFailed(e),
                ) => {
                    then_asked == asked.push(RequestActionView::Finish(Err(ErrorView::Wormhole(e))))
                },
                (RequestActionView::RequestFile, RequestEventView::TransferFailed(e)) => {
                    then_asked == asked.push(RequestActionView::Finish(Err(ErrorView::Transfer(e))))
                },
                (RequestActionView::Finish(_), _) => then_asked == asked,
                (_, RequestEventView::Cancelled) => {
                    then_asked == asked.push(RequestActionView::Finish(Err(ErrorView::Cancelled)))
                },
                _ => then_asked == asked,
            }
        }),
{
    let (session, first) = request_begin::<R>(code);
    let asked = seq![first] + session.run(events);
    lemma_pending(code, events);
    lemma_one_more(session, events, event);
    if let Some(action) = session.after_all(events).after(event).1 {
        assert(seq![first] + session.run(events).push(action) =~= asked.push(action));
        assert(asked.push(action).drop_last() =~= asked);
    }
}

/// The event that an offer which is handed on goes back to.
proof fn lemma_offer_was_told<R>(
    session: RequestView,
    events: Seq<RequestEventView<R>>,
    i: int,
) -> (k: int)
    requires
        0 <= i < session.run(events).len(),
        session.run(events)[i] matches RequestActionView::Finish(Ok(_)),
    ensures
        0 <= k < events.len(),
        session.run(events)[i] matches RequestActionView::Finish(Ok(pending)) && events[k] == (
        RequestEventView::Offered {
            file_name: events[k]->file_name,
            file_size: pending.file_size,
            request: pending.request,
        }) && pending.file_name == file_name::sanitized(events[k]->file_name),
    decreases events.len(),
{
    let (next, wanted) = session.after(events[0]);
    let rest = next.run(events.skip(1));
    if wanted is Some {
        assert(session.run(events) == seq![wanted->0] + rest);
        if i > 0 {
            let k = lemma_offer_was_told(next, events.skip(1), i - 1);
            k + 1
        } else {
            0
        }
    } else {
        let k = lemma_offer_was_told(next, events.skip(1), i);
        k + 1
    }
}

/// In every run, an offer that is handed on is one that was told: it has the size
/// and the handle of that offer, and the cleaned form of its name.
pub proof fn offers_are_handed_on_as_they_came<R>(
    code: Seq<char>,
    events: Seq<RequestEventView<R>>,
    i: int,
)
    requires
        0 <= i < request_begin::<R>(code).0.run(events).len(),
    ensures
        request_begin::<R>(code).0.run(events)[i] matches RequestActionView::Finish(Ok(pending))
            ==> exists|k: int|
            0 <= k < events.len() && (#[trigger] events[k] matches RequestEventView::Offered {
                file_name,
                file_size,
                request,
            } && pending.file_size == file_size && pending.request == request && pending.file_name
                == file_name::sanitized(file_name)),
{
    let session = request_begin::<R>(code).0;
    if let RequestActionView::Finish(Ok(pending)) = session.run(events)[i] {
        let k = lemma_offer_was_told(session, events, i);
        assert(events[k] is Offered);
    }
}

/// A session that waits for an offer.
#[derive(Debug)]
pub struct RequestSession {
    phase: RequestPhase,
}

impl View for RequestSession {
    type V = RequestView;

    closed spec fn view(&self) -> RequestView {
        RequestView { phase: self.phase }
    }
}

/// The model of an optional action.
pub open spec fn wanted_view<R>(wanted: Option<RequestAction<R>>) -> Option<RequestActionView<R>> {
    match wanted {
        Some(action) => Some(action@),
        None => None,
    }
}

/// Starts to wait for the sender's offer in the wormhole under `code`, without
/// accepting it.
pub fn request_receive<R>(code: &str) -> (r: (RequestSession, RequestAction<R>))
    ensures
        (r.0@, r.1@) == request_begin::<R>(code@),
        if mailbox::is_code(code@) {
            &&& r.0@.phase == RequestPhase::Opening
            &&& r.1 matches RequestAction::OpenMailbox(
                MailboxRequest::Connect { code: c, allocate },
            )
            &&& c@ == code@
            &&& !allocate
        } else {
            &&& r.0@.phase == RequestPhase::Finished
            &&& r.1 matches RequestAction::Finish(Err(Error::InvalidCode(text)))
            &&& text@ == code@
        },
{
    match mailbox::open_to_receive(code) {
        Ok(request) => (
            RequestSession { phase: RequestPhase::Opening },
            RequestAction::OpenMailbox(request),
        ),
        Err(e) => (
            RequestSession { phase: RequestPhase::Finished },
            RequestAction::Finish(Err(e)),
        ),
    }
}

impl RequestSession {
    fn fail<R>(e: Error) -> (r: (RequestSession, Option<RequestAction<R>>))
        ensures
            (r.0@, wanted_view(r.1)) == RequestView::failed::<R>(e@),
            r.0@.phase == RequestPhase::Finished,
            r.1 == Some(RequestAction::<R>::Finish(Err(e))),
    {
        (RequestSession { phase: RequestPhase::Finished }, Some(RequestAction::Finish(Err(e))))
    }

    /// Goes on after an event, and says what is to be done next. An event that
    /// does not answer the pending action is ignored.
    pub fn after<R>(self, event: RequestEvent<R>) -> (r: (
        RequestSession,
        Option<RequestAction<R>>,
    ))
        ensures
            (r.0@, wanted_view(r.1)) == self@.after(event@),
            match (self@.phase, event) {
                (RequestPhase::Opening, RequestEvent::MailboxOpened) => {
                    &&& r.0@.phase == RequestPhase::Connecting
                    &&& r.1 matches Some(RequestAction::Connect)
                },
                (RequestPhase::Connecting, RequestEvent::WormholeConnected) => {
                    &&& r.0@.phase == RequestPhase::Requesting
                    &&& r.1 matches Some(RequestAction::RequestFile)
                },
                (
                    RequestPhase::Requesting,
                    RequestEvent::Offered { file_name, file_size, request },
                ) => {
                    &&& r.0@.phase == RequestPhase::Finished
                    &&& r.1 matches Some(RequestAction::Finish(Ok(pending)))
                    &&& pending.file_name@ == file_name::sanitized(file_name@)
                    &&& pending.file_size == file_size
                    &&& pending.request == request
                },
                (
                    RequestPhase::Opening | RequestPhase::Connecting,
                    RequestEvent::WormholeFailed(e),
                ) => {
                    &&& r.0@.phase == RequestPhase::Finished
                    &&& r.1 == Some(RequestAction::<R>::Finish(Err(Error::Wormhole(e))))
                },
                (RequestPhase::Requesting, RequestEvent::TransferFailed(e)) => {
                    &&& r.0@.phase == RequestPhase::Finished
                    &&& r.1 == Some(RequestAction::<R>::Finish(Err(Error::Transfer(e))))
                },
                (RequestPhase::Requesting, RequestEvent::NothingOffered) => {
                    &&& r.0@.phase == RequestPhase::Finished
                    &&& r.1 matches Some(RequestAction::Finish(Err(Error::Cancelled)))
                },
                (phase, RequestEvent::Cancelled) if phase != RequestPhase::Finished => {
                    &&& r.0@.phase == RequestPhase::Finished
                    &&& r.1 matches Some(RequestAction::Finish(Err(Error::Cancelled)))
                },
                (phase, _) => r.0@.phase == phase && r.1 is None,
            },
    {
        match (self.phase, event) {
            (RequestPhase::Opening, RequestEvent::MailboxOpened) => (
                RequestSession { phase: RequestPhase::Connecting },
                Some(RequestAction::Connect),
            ),
            (RequestPhase::Connecting, RequestEvent::WormholeConnected) => (
                RequestSession { phase: RequestPhase::Requesting },
                Some(RequestAction::RequestFile),
            ),
            (
                RequestPhase::Requesting,
                RequestEvent::Offered { file_name, file_size, request },
            ) => {
                let file_name = file_name::sanitize_file_name(file_name.as_str());
                let pending = PendingReceive { file_name, file_size, request };
                (
                    RequestSession { phase: RequestPhase::Finished },
                    Some(RequestAction::Finish(Ok(pending))),
                )
            },
            (RequestPhase::Requesting, RequestEvent::NothingOffered) => Self::fail(
                Error::Cancelled,
            ),
            (
                RequestPhase::Opening | RequestPhase::Connecting,
                RequestEvent::WormholeFailed(e),
            ) => Self::fail(Error::from(e)),
            (RequestPhase::Requesting, RequestEvent::TransferFailed(e)) => Self::fail(
                Error::from(e),
            ),
            (
                RequestPhase::Opening | RequestPhase::Connecting | RequestPhase::Requesting,
                RequestEvent::Cancelled,
            ) => Self::fail(Error::Cancelled),
            _ => (self, None),
        }
    }
}

impl<R> PendingReceive<R> {
    /// Accepts the offer: gives out the handle, and starts to save the file.
    pub fn accept(self) -> (r: (R, AcceptSession, AcceptAction))
        ensures
            r.0 == self@.request,
            (r.1@, r.2@) == accept::accept_begin(self@.file_name),
            r.0 == self.request,
            r.2 matches AcceptAction::CreateFile { name } && name@ == self.file_name@,
    {
        let (session, action) = accept::begin(self.file_name.as_str());
        (self.request, session, action)
    }

    /// Declines the offer: gives out the handle to reject it with.
    pub fn reject(self) -> (request: R)
        ensures
            request == self@.request,
            request == self.request,
    {
        self.request
    }
}

} // verus!
