//! Sending a file or folder, as a session: it says what is to be done next, and
//! is told what came of it.
//!
//! The session itself does no input or output. Whoever runs it performs each
//! action and answers with an event, until the action is to finish.

use vstd::prelude::*;

use crate::error;
use crate::error::{Error, ErrorView, IoErrorKind, IoFailure, IoFailureView};
use crate::file_name;
use crate::mailbox;
use crate::mailbox::{MailboxRequest, MailboxRequestView};

verus! {

/// How far a session has come.
#[derive(Clone, Copy, Debug, PartialEq, Eq, Structural)]
pub enum SendPhase {
    /// The mailbox is being opened.
    Opening,
    /// The user is being told the code.
    Reporting,
    /// The receiver is waited for.
    Connecting,
    /// The file is on its way.
    Sending,
    /// It is over.
    Finished,
}

/// What is to be done next.
#[derive(Debug)]
pub enum SendAction {
    /// Open the mailbox.
    OpenMailbox(MailboxRequest),
    /// Tell the user the code of the mailbox.
    ReportCode { code: String },
    /// Wait for the receiver and agree on a key.
    Connect,
    /// Send the file or folder under this name.
    SendFile { file_name: String },
    /// Return this.
    Finish(Result<(), Error>),
}

/// What came of an action.
#[derive(Debug)]
pub enum SendEvent {
    /// The mailbox is open, and has this code.
    MailboxOpened { code: String },
    /// The user has been told the code.
    CodeReported,
    /// The receiver is there, and the key is agreed on.
    WormholeConnected,
    /// Opening the mailbox or meeting the receiver failed.
    WormholeFailed(magic_wormhole::WormholeError),
    /// The file has been sent.
    FileSent,
    /// Sending it failed.
    TransferFailed(magic_wormhole::transfer::TransferError),
    /// The user called it off before the action was done.
    Cancelled,
}

/// A session, as a model.
pub struct SendView {
    pub file_name: Seq<char>,
    pub phase: SendPhase,
}

/// A [`SendAction`], with its texts as sequences of characters.
pub enum SendActionView {
    OpenMailbox(MailboxRequestView),
    ReportCode { code: Seq<char> },
    Connect,
    SendFile { file_name: Seq<char> },
    Finish(Result<(), ErrorView>),
}

/// A [`SendEvent`], with its text as a sequence of characters.
pub enum SendEventView {
    MailboxOpened { code: Seq<char> },
    CodeReported,
    WormholeConnected,
    WormholeFailed(magic_wormhole::WormholeError),
    FileSent,
    TransferFailed(magic_wormhole::transfer::TransferError),
    Cancelled,
}

impl View for SendAction {
    type V = SendActionView;

    open spec fn view(&self) -> SendActionView {
        match *self {
            SendAction::OpenMailbox(request) => SendActionView::OpenMailbox(request@),
            SendAction::ReportCode { code } => SendActionView::ReportCode { code: code@ },
            SendAction::Connect => SendActionView::Connect,
            SendAction::SendFile { file_name } => SendActionView::SendFile {
                file_name: file_name@,
            },
            SendAction::Finish(Ok(())) => SendActionView::Finish(Ok(())),
            SendAction::Finish(Err(e)) => SendActionView::Finish(Err(e@)),
        }
    }
}

impl View for SendEvent {
    type V = SendEventView;

    open spec fn view(&self) -> SendEventView {
        match *self {
            SendEvent::MailboxOpened { code } => SendEventView::MailboxOpened { code: code@ },
            SendEvent::CodeReported => SendEventView::CodeReported,
            SendEvent::WormholeConnected => SendEventView::WormholeConnected,
            SendEvent::WormholeFailed(e) => SendEventView::WormholeFailed(e),
            SendEvent::FileSent => SendEventView::FileSent,
            SendEvent::TransferFailed(e) => SendEventView::TransferFailed(e),
            SendEvent::Cancelled => SendEventView::Cancelled,
        }
    }
}

/// How a session for `path` begins, with the code `code` or a fresh one: the path
/// has to name a file, and the code has to be one.
pub open spec fn send_begin(path: Seq<char>, code: Option<Seq<char>>) -> (SendView, SendActionView) {
    match file_name::named_file(path) {
        None => (
            SendView { file_name: Seq::empty(), phase: SendPhase::Finished },
            SendActionView::Finish(Err(error::no_file_name())),
        ),
        Some(file_name) => match mailbox::sender_mailbox(code) {
            Ok(request) => (
                SendView { file_name, phase: SendPhase::Opening },
                SendActionView::OpenMailbox(request),
            ),
            Err(e) => (
                SendView { file_name, phase: SendPhase::Finished },
                SendActionView::Finish(Err(e)),
            ),
        },
    }
}

impl SendView {
    /// The same session in another phase.
    pub open spec fn moved_to(self, phase: SendPhase) -> SendView {
        SendView { file_name: self.file_name, phase }
    }

    /// The session after `event`, and what it wants then. An event that does not
    /// answer the pending action changes nothing and wants nothing.
    pub open spec fn after(self, event: SendEventView) -> (SendView, Option<SendActionView>) {
        match (self.phase, event) {
            (SendPhase::Opening, SendEventView::MailboxOpened { code }) => (
                self.moved_to(SendPhase::Reporting),
                Some(SendActionView::ReportCode { code }),
            ),
            (SendPhase::Reporting, SendEventView::CodeReported) => (
                self.moved_to(SendPhase::Connecting),
                Some(SendActionView::Connect),
            ),
            (SendPhase::Connecting, SendEventView::WormholeConnected) => (
                self.moved_to(SendPhase::Sending),
                Some(SendActionView::SendFile { file_name: self.file_name }),
            ),
            (SendPhase::Sending, SendEventView::FileSent) => (
                self.moved_to(SendPhase::Finished),
                Some(SendActionView::Finish(Ok(()))),
            ),
            (
                SendPhase::Opening | SendPhase::Connecting,
                SendEventView::WormholeFailed(e),
            ) => (
                self.moved_to(SendPhase::Finished),
                Some(SendActionView::Finish(Err(ErrorView::Wormhole(e)))),
            ),
            (SendPhase::Sending, SendEventView::TransferFailed(e)) => (
                self.moved_to(SendPhase::Finished),
                Some(SendActionView::Finish(Err(ErrorView::Transfer(e)))),
            ),
            (
                SendPhase::Opening | SendPhase::Reporting | SendPhase::Connecting
                | SendPhase::Sending,
                SendEventView::Cancelled,
            ) => (
                self.moved_to(SendPhase::Finished),
                Some(SendActionView::Finish(Err(ErrorView::Cancelled))),
            ),
            _ => (self, None),
        }
    }

    /// The actions that the session asks for while it is told `events`.
    pub open spec fn run(self, events: Seq<SendEventView>) -> Seq<SendActionView>
        decreases events.len(),
    {
        if events.len() == 0 {
            Seq::empty()
        } else {
            let (next, wanted) = self.after(events[0]);
            let rest = next.run(events.skip(1));
            match wanted {
                Some(action) => seq![action] + rest,
                None => rest,
            }
        }
    }

    /// The session once it has been told `events`.
    pub open spec fn after_all(self, events: Seq<SendEventView>) -> SendView
        decreases events.len(),
    {
        if events.len() == 0 {
            self
        } else {
            self.after(events[0]).0.after_all(events.skip(1))
        }
    }

    /// How many actions are still to come, at most.
    pub open spec fn steps_left(self) -> nat {
        match self.phase {
            SendPhase::Opening => 4,
            SendPhase::Reporting => 3,
            SendPhase::Connecting => 2,
            SendPhase::Sending => 1,
            SendPhase::Finished => 0,
        }
    }
}

/// The user can call off a transfer at any time, also while the receiver is still
/// waited for.
pub proof fn sending_can_be_cancelled(session: SendView)
    requires
        session.phase != SendPhase::Finished,
    ensures
        session.after(SendEventView::Cancelled) == (
            session.moved_to(SendPhase::Finished),
            Some(SendActionView::Finish(Err(ErrorView::Cancelled))),
        ),
{
}

/// A session that is over asks for nothing any more.
pub proof fn finished_sending_stays_finished(session: SendView, events: Seq<SendEventView>)
    requires
        session.phase == SendPhase::Finished,
    ensures
        session.run(events) == Seq::<SendActionView>::empty(),
    decreases events.len(),
{
    if events.len() > 0 {
        finished_sending_stays_finished(session, events.skip(1));
    }
}

/// Every run is short: whatever the events are, no more actions follow than the
/// phase leaves room for.
pub proof fn sending_ends(session: SendView, events: Seq<SendEventView>)
    ensures
        session.run(events).len() <= session.steps_left(),
    decreases events.len(),
{
    if events.len() > 0 {
        let (next, wanted) = session.after(events[0]);
        sending_ends(next, events.skip(1));
    }
}

/// The steps of a transfer after the mailbox is open: the code is reported, the
/// receiver is waited for, the file is sent under its name, and that is it.
pub open spec fn is_step(place: int, action: SendActionView, file_name: Seq<char>) -> bool {
    if place == 0 {
        action is ReportCode
    } else if place == 1 {
        action == SendActionView::Connect
    } else if place == 2 {
        action == (SendActionView::SendFile { file_name })
    } else {
        place == 3 && action == SendActionView::Finish(Ok(()))
    }
}

/// Every action of a run is the step that is due, or the report of an error, and
/// nothing follows the end.
proof fn lemma_steps(session: SendView, events: Seq<SendEventView>, i: int)
    requires
        0 <= i < session.run(events).len(),
    ensures
        is_step(i + 4 - session.steps_left(), session.run(events)[i], session.file_name)
            || session.run(events)[i] matches SendActionView::Finish(Err(_)),
        session.run(events)[i] is Finish ==> i == session.run(events).len() - 1,
    decreases events.len(),
{
    let (next, wanted) = session.after(events[0]);
    let rest = next.run(events.skip(1));
    if wanted is Some {
        assert(session.run(events) == seq![wanted->0] + rest);
        if next.phase == SendPhase::Finished {
            finished_sending_stays_finished(next, events.skip(1));
        }
        if i > 0 {
            lemma_steps(next, events.skip(1), i - 1);
        }
    } else {
        lemma_steps(next, events.skip(1), i);
    }
}

/// The code is reported once at most, whatever happens.
pub proof fn code_is_reported_once(session: SendView, events: Seq<SendEventView>, i: int, j: int)
    requires
        0 <= i < session.run(events).len(),
        0 <= j < session.run(events).len(),
        session.run(events)[i] is ReportCode,
        session.run(events)[j] is ReportCode,
    ensures
        i == j,
{
    lemma_steps(session, events, i);
    lemma_steps(session, events, j);
}

/// Success means that everything was done, in order: the code was reported, the
/// receiver was waited for, the file was sent under its name, and only then the
/// session ended.
pub proof fn success_has_all_steps(session: SendView, events: Seq<SendEventView>)
    requires
        session.phase == SendPhase::Opening,
        session.run(events).contains(SendActionView::Finish(Ok(()))),
    ensures
        session.run(events).len() == 4,
        session.run(events)[0] is ReportCode,
        session.run(events)[1] == SendActionView::Connect,
        session.run(events)[2] == (SendActionView::SendFile { file_name: session.file_name }),
        session.run(events)[3] == SendActionView::Finish(Ok(())),
{
    let all = session.run(events);
    let end = choose|k: int| 0 <= k < all.len() && all[k] == SendActionView::Finish(Ok(()));
    lemma_steps(session, events, end);
    lemma_steps(session, events, 0);
    lemma_steps(session, events, 1);
    lemma_steps(session, events, 2);
}

/// The event that settles how opening the mailbox went: the first one that says
/// so, or the call to give up.
pub open spec fn opening_outcome(events: Seq<SendEventView>) -> Option<SendEventView>
    decreases events.len(),
{
    if events.len() == 0 {
        None
    } else if events[0] is MailboxOpened || events[0] is WormholeFailed || events[0] is Cancelled {
        Some(events[0])
    } else {
        opening_outcome(events.skip(1))
    }
}

/// What a session that opens the mailbox asks for first.
proof fn lemma_first_step(session: SendView, events: Seq<SendEventView>)
    requires
        session.phase == SendPhase::Opening,
    ensures
        match opening_outcome(events) {
            Some(SendEventView::MailboxOpened { code }) => {
                &&& session.run(events).len() > 0
                &&& session.run(events)[0] == SendActionView::ReportCode { code }
            },
            _ => session.run(events).len() > 0 ==> session.run(events)[0] is Finish,
        },
    decreases events.len(),
{
    if events.len() > 0 && session.after(events[0]).1 is None {
        lemma_first_step(session, events.skip(1));
    }
}

/// Every run keeps its order, however it ends. The code is reported first or not
/// at all: it is reported exactly when the mailbox was opened, and it is the code
/// that the mailbox has. The wait for the receiver begins only after that, and the
/// file is sent, with all reports of the connection and the progress, only after
/// the receiver came. Each happens once at most.
pub proof fn sending_keeps_its_order(session: SendView, events: Seq<SendEventView>, i: int)
    requires
        session.phase == SendPhase::Opening,
        0 <= i < session.run(events).len(),
    ensures
        ({
            let asked = session.run(events);
            &&& opening_outcome(events) matches Some(SendEventView::MailboxOpened { code })
                ==> asked[0] == SendActionView::ReportCode { code }
            &&& asked[i] is ReportCode ==> i == 0
            &&& asked[i] is ReportCode ==> (opening_outcome(events) matches Some(
                SendEventView::MailboxOpened { code },
            ) && asked[i] == SendActionView::ReportCode { code })
            &&& asked[i] is Connect ==> i == 1 && asked[0] is ReportCode
            &&& asked[i] is SendFile ==> i == 2 && asked[0] is ReportCode && asked[1] is Connect
                && asked[2] == (SendActionView::SendFile { file_name: session.file_name })
            &&& !(asked[i] is OpenMailbox)
            &&& asked[i] is Finish ==> i == asked.len() - 1
        }),
{
    lemma_first_step(session, events);
    lemma_steps(session, events, i);
    lemma_steps(session, events, 0);
    if i >= 1 {
        lemma_steps(session, events, 1);
    }
}

/// Where the mailbox was opened, something is asked for: the code is reported.
pub proof fn opened_mailbox_is_reported(session: SendView, events: Seq<SendEventView>)
    requires
        session.phase == SendPhase::Opening,
    ensures
        opening_outcome(events) matches Some(SendEventView::MailboxOpened { code }) ==> (
        session.run(events).len() > 0 && session.run(events)[0] == SendActionView::ReportCode {
            code,
        }),
{
    lemma_first_step(session, events);
}

/// How sending begins. Without a code, a mailbox with a fresh code of two words is
/// opened; with one, the mailbox of that very code is claimed. A text that is no code
/// is refused, and so is, before that, a path that names no file.
pub proof fn sending_begins_with_the_mailbox(path: Seq<char>, raw: Seq<char>)
    ensures
        ({
            let fresh = send_begin(path, None).1;
            let given = send_begin(path, Some(raw)).1;
            if file_name::named_file(path) is None {
                &&& fresh == given
                &&& fresh == SendActionView::Finish(
                    Err(
                        ErrorView::Io(
                            IoFailureView::Raised {
                                kind: IoErrorKind::InvalidInput,
                                message: "path has no file name"@,
                            },
                        ),
                    ),
                )
            } else {
                &&& fresh == SendActionView::OpenMailbox(
                    MailboxRequestView::Create { code_length: 2 },
                )
                &&& mailbox::is_code(raw) ==> given == SendActionView::OpenMailbox(
                    MailboxRequestView::Connect { code: raw, allocate: true },
                )
                &&& !mailbox::is_code(raw) ==> given == SendActionView::Finish(
                    Err(ErrorView::InvalidCode(raw)),
                )
            }
        }),
{
}

/// One more event adds its answer to the run, and nothing else changes.
proof fn lemma_one_more(session: SendView, events: Seq<SendEventView>, event: SendEventView)
    ensures
        session.after_all(events.push(event)) == session.after_all(events).after(event).0,
        session.run(events.push(event)) == match session.after_all(events).after(event).1 {
            Some(action) => session.run(events).push(action),
            None => session.run(events),
        },
    decreases events.len(),
{
    reveal_with_fuel(SendView::run, 2);
    reveal_with_fuel(SendView::after_all, 2);
    let told = events.push(event);
    if events.len() == 0 {
        assert(told.skip(1) =~= Seq::<SendEventView>::empty());
        assert(session.run(told) =~= match session.after(event).1 {
            Some(action) => seq![action],
            None => Seq::<SendActionView>::empty(),
        });
    } else {
        let (next, wanted) = session.after(events[0]);
        assert(told[0] == events[0]);
        assert(told.skip(1) =~= events.skip(1).push(event));
        lemma_one_more(next, events.skip(1), event);
        if wanted is Some {
            let rest = next.run(events.skip(1));
            if let Some(action) = next.after_all(events.skip(1)).after(event).1 {
                assert(seq![wanted->0] + rest.push(action) =~= (seq![wanted->0] + rest).push(
                    action,
                ));
            }
        }
    }
}

/// The phase is that of the action which was asked for last.
proof fn lemma_pending(path: Seq<char>, code: Option<Seq<char>>, events: Seq<SendEventView>)
    ensures
        ({
            let (session, first) = send_begin(path, code);
            let asked = seq![first] + session.run(events);
            let now = session.after_all(events);
            &&& now.file_name == session.file_name
            &&& now.phase == match asked.last() {
                SendActionView::OpenMailbox(_) => SendPhase::Opening,
                SendActionView::ReportCode { .. } => SendPhase::Reporting,
                SendActionView::Connect => SendPhase::Connecting,
                SendActionView::SendFile { .. } => SendPhase::Sending,
                SendActionView::Finish(_) => SendPhase::Finished,
            }
        }),
    decreases events.len(),
{
    let (session, first) = send_begin(path, code);
    if events.len() > 0 {
        let before = events.drop_last();
        lemma_pending(path, code, before);
        assert(before.push(events.last()) =~= events);
        lemma_one_more(session, before, events.last());
    }
}

/// What a session answers, in every run, by what it asked for last and what it is
/// told then. Opening the mailbox leads to the report of its code, the report to the
/// wait for the receiver, the receiver to sending the file under its name, and the
/// file that was sent to success. A failure of the wormhole, told while the mailbox
/// is opened or the receiver is waited for, ends the session with that very error,
/// and so does a failure of the transfer while the file is sent. Giving up ends it at
/// any time. Nothing else has an answer.
pub proof fn sending_answers_what_it_is_told(
    path: Seq<char>,
    code: Option<Seq<char>>,
    events: Seq<SendEventView>,
    event: SendEventView,
)
    ensures
        ({
            let (session, first) = send_begin(path, code);
            let asked = seq![first] + session.run(events);
            let then_asked = seq![first] + session.run(events.push(event));
            match (asked.last(), event) {
                (SendActionView::OpenMailbox(_), SendEventView::MailboxOpened { code }) => {
                    then_asked == asked.push(SendActionView::ReportCode { code })
                },
                (SendActionView::ReportCode { .. }, SendEventView::CodeReported) => {
                    then_asked == asked.push(SendActionView::Connect)
                },
                (SendActionView::Connect, SendEventView::WormholeConnected) => {
                    file_name::named_file(path) matches Some(file_name) && then_asked
                        == asked.push(SendActionView::SendFile { file_name })
                },
                (SendActionView::SendFile { .. }, SendEventView::FileSent) => {
                    then_asked == asked.push(SendActionView::Finish(Ok(())))
                },
                (
                    SendActionView::OpenMailbox(_) | SendActionView::Connect,
                    SendEventView::WormholeFailed(e),
                ) => {
                    then_asked == asked.push(SendActionView::Finish(Err(ErrorView::Wormhole(e))))
                },
                (SendActionView::SendFile { .. }, SendEventView::TransferFailed(e)) => {
                    then_asked == asked.push(SendActionView::Finish(Err(ErrorView::Transfer(e))))
                },
                (SendActionView::Finish(_), _) => then_asked == asked,
                (_, SendEventView::Cancelled) => {
                    then_asked == asked.push(SendActionView::Finish(Err(ErrorView::Cancelled)))
                },
                _ => then_asked == asked,
            }
        }),
{
    let (session, first) = send_begin(path, code);
    let asked = seq![first] + session.run(events);
    if session.phase == SendPhase::Finished {
        finished_sending_stays_finished(session, events);
    }
    lemma_pending(path, code, events);
    lemma_one_more(session, events, event);
    if let Some(action) = session.after_all(events).after(event).1 {
        assert(seq![first] + session.run(events).push(action) =~= asked.push(action));
    }
}

/// The events that a file which is sent, and a transfer that succeeds, go back to.
proof fn lemma_told_before(session: SendView, events: Seq<SendEventView>, i: int) -> (at: (
    int,
    int,
    int,
    int,
))
    requires
        0 <= i < session.run(events).len(),
        session.run(events)[i] is SendFile || session.run(events)[i] == SendActionView::Finish(
            Ok(()),
        ),
    ensures
        session.run(events)[i] is Finish ==> {
            &&& 0 <= at.3 < events.len()
            &&& events[at.3] is FileSent
            &&& session.steps_left() >= 2 ==> at.2 < at.3
        },
        session.run(events)[i] is SendFile ==> session.steps_left() >= 2,
        session.steps_left() >= 2 ==> {
            &&& 0 <= at.2 < events.len()
            &&& events[at.2] is WormholeConnected
        },
        session.steps_left() >= 3 ==> {
            &&& 0 <= at.1 < at.2
            &&& events[at.1] is CodeReported
        },
        session.steps_left() >= 4 ==> {
            &&& 0 <= at.0 < at.1
            &&& events[at.0] is MailboxOpened
        },
    decreases events.len(),
{
    let (next, wanted) = session.after(events[0]);
    let rest = next.run(events.skip(1));
    if wanted is Some {
        assert(session.run(events) == seq![wanted->0] + rest);
        if next.phase == SendPhase::Finished {
            finished_sending_stays_finished(next, events.skip(1));
        }
        if i == 0 {
            (0, 0, 0, 0)
        } else {
            let later = lemma_told_before(next, events.skip(1), i - 1);
            match session.phase {
                SendPhase::Opening => (0, later.1 + 1, later.2 + 1, later.3 + 1),
                SendPhase::Reporting => (0, 0, later.2 + 1, later.3 + 1),
                _ => (0, 0, 0, later.3 + 1),
            }
        }
    } else {
        let later = lemma_told_before(next, events.skip(1), i);
        (later.0 + 1, later.1 + 1, later.2 + 1, later.3 + 1)
    }
}

/// The file is sent only to a receiver that is there: that the mailbox is open, that
/// the code was reported and that the receiver came have all been told before, in
/// this order.
pub proof fn file_is_sent_only_to_a_receiver(
    path: Seq<char>,
    code: Option<Seq<char>>,
    events: Seq<SendEventView>,
    i: int,
)
    requires
        0 <= i < send_begin(path, code).0.run(events).len(),
        send_begin(path, code).0.run(events)[i] is SendFile,
    ensures
        exists|a: int, b: int, c: int|
            #![trigger events[a], events[b], events[c]]
            {
                &&& 0 <= a < b < c < events.len()
                &&& events[a] is MailboxOpened
                &&& events[b] is CodeReported
                &&& events[c] is WormholeConnected
            },
{
    let session = send_begin(path, code).0;
    if session.phase == SendPhase::Finished {
        finished_sending_stays_finished(session, events);
    }
    let at = lemma_told_before(session, events, i);
    assert(events[at.0] is MailboxOpened && events[at.1] is CodeReported
        && events[at.2] is WormholeConnected);
}

/// Success is returned only where everything was told, in order: that the mailbox is
/// open, that the code was reported, that the receiver came and that the file was
/// sent.
pub proof fn success_was_told_step_by_step(
    path: Seq<char>,
    code: Option<Seq<char>>,
    events: Seq<SendEventView>,
    i: int,
)
    requires
        0 <= i < send_begin(path, code).0.run(events).len(),
        send_begin(path, code).0.run(events)[i] == SendActionView::Finish(Ok(())),
    ensures
        exists|a: int, b: int, c: int, d: int|
            #![trigger events[a], events[b], events[c], events[d]]
            {
                &&& 0 <= a < b < c < d < events.len()
                &&& events[a] is MailboxOpened
                &&& events[b] is CodeReported
                &&& events[c] is WormholeConnected
                &&& events[d] is FileSent
            },
{
    let session = send_begin(path, code).0;
    if session.phase == SendPhase::Finished {
        finished_sending_stays_finished(session, events);
    }
    let at = lemma_told_before(session, events, i);
    assert(events[at.0] is MailboxOpened && events[at.1] is CodeReported
        && events[at.2] is WormholeConnected && events[at.3] is FileSent);
}

/// A transfer that is under way.
#[derive(Debug)]
pub struct SendSession {
    file_name: String,
    phase: SendPhase,
}

impl View for SendSession {
    type V = SendView;

    closed spec fn view(&self) -> SendView {
        SendView { file_name: self.file_name@, phase: self.phase }
    }
}

/// The model of an optional action.
pub open spec fn wanted_view(wanted: Option<SendAction>) -> Option<SendActionView> {
    match wanted {
        Some(action) => Some(action@),
        None => None,
    }
}

/// Starts to send the file or folder at `path`. Without a code, a fresh one is
/// generated and reported; with one, the wormhole is opened on that exact code.
pub fn send_file(path: &str, code: Option<&str>) -> (r: (SendSession, SendAction))
    ensures
        (r.0@, r.1@) == send_begin(
            path@,
            match code {
                Some(raw) => Some(raw@),
                None => None,
            },
        ),
        file_name::named_file(path@) matches Some(name) ==> r.0@.file_name == name,
        file_name::named_file(path@) is None ==> {
            &&& r.0@.phase == SendPhase::Finished
            &&& r.1 matches SendAction::Finish(Err(Error::Io(IoFailure::Raised { kind, message })))
            &&& kind == IoErrorKind::InvalidInput
            &&& message@ == "path has no file name"@
        },
        file_name::named_file(path@) is Some ==> match code {
            None => {
                &&& r.0@.phase == SendPhase::Opening
                &&& r.1 matches SendAction::OpenMailbox(MailboxRequest::Create { code_length })
                &&& code_length == 2
            },
            Some(raw) if mailbox::is_code(raw@) => {
                &&& r.0@.phase == SendPhase::Opening
                &&& r.1 matches SendAction::OpenMailbox(MailboxRequest::Connect { code, allocate })
                &&& code@ == raw@
                &&& allocate
            },
            Some(raw) => {
                &&& r.0@.phase == SendPhase::Finished
                &&& r.1 matches SendAction::Finish(Err(Error::InvalidCode(text)))
                &&& text@ == raw@
            },
        },
{
    match file_name::file_name(path) {
        None => (
            SendSession { file_name: String::new(), phase: SendPhase::Finished },
            SendAction::Finish(Err(error::raise_no_file_name())),
        ),
        Some(file_name) => match mailbox::open_to_send(code) {
            Ok(request) => (
                SendSession { file_name, phase: SendPhase::Opening },
                SendAction::OpenMailbox(request),
            ),
            Err(e) => (
                SendSession { file_name, phase: SendPhase::Finished },
                SendAction::Finish(Err(e)),
            ),
        },
    }
}

impl SendSession {
    /// Goes on after an event, and says what is to be done next. An event that
    /// does not answer the pending action is ignored.
    pub fn after(self, event: SendEvent) -> (r: (SendSession, Option<SendAction>))
        ensures
            (r.0@, wanted_view(r.1)) == self@.after(event@),
            r.0@.file_name == self@.file_name,
            match (self@.phase, event) {
                (SendPhase::Opening, SendEvent::MailboxOpened { code }) => {
                    &&& r.0@.phase == SendPhase::Reporting
                    &&& r.1 matches Some(SendAction::ReportCode { code: reported })
                    &&& reported@ == code@
                },
                (SendPhase::Reporting, SendEvent::CodeReported) => {
                    &&& r.0@.phase == SendPhase::Connecting
                    &&& r.1 matches Some(SendAction::Connect)
                },
                (SendPhase::Connecting, SendEvent::WormholeConnected) => {
                    &&& r.0@.phase == SendPhase::Sending
                    &&& r.1 matches Some(SendAction::SendFile { file_name })
                    &&& file_name@ == self@.file_name
                },
                (SendPhase::Sending, SendEvent::FileSent) => {
                    &&& r.0@.phase == SendPhase::Finished
                    &&& r.1 matches Some(SendAction::Finish(Ok(())))
                },
                (SendPhase::Opening | SendPhase::Connecting, SendEvent::WormholeFailed(e)) => {
                    &&& r.0@.phase == SendPhase::Finished
                    &&& r.1 == Some(SendAction::Finish(Err(Error::Wormhole(e))))
                },
                (SendPhase::Sending, SendEvent::TransferFailed(e)) => {
                    &&& r.0@.phase == SendPhase::Finished
                    &&& r.1 == Some(SendAction::Finish(Err(Error::Transfer(e))))
                },
                (phase, SendEvent::Cancelled) if phase != SendPhase::Finished => {
                    &&& r.0@.phase == SendPhase::Finished
                    &&& r.1 matches Some(SendAction::Finish(Err(Error::Cancelled)))
                },
                (phase, _) => r.0@.phase == phase && r.1 is None,
            },
    {
        let SendSession { file_name, phase } = self;
        match (phase, event) {
            (SendPhase::Opening, SendEvent::MailboxOpened { code }) => (
                SendSession { file_name, phase: SendPhase::Reporting },
                Some(SendAction::ReportCode { code }),
            ),
            (SendPhase::Reporting, SendEvent::CodeReported) => (
                SendSession { file_name, phase: SendPhase::Connecting },
                Some(SendAction::Connect),
            ),
            (SendPhase::Connecting, SendEvent::WormholeConnected) => {
                let wanted = SendAction::SendFile { file_name: file_name.clone() };
                (SendSession { file_name, phase: SendPhase::Sending }, Some(wanted))
            },
            (SendPhase::Sending, SendEvent::FileSent) => (
                SendSession { file_name, phase: SendPhase::Finished },
                Some(SendAction::Finish(Ok(()))),
            ),
            (SendPhase::Opening | SendPhase::Connecting, SendEvent::WormholeFailed(e)) => (
                SendSession { file_name, phase: SendPhase::Finished },
                Some(SendAction::Finish(Err(Error::from(e)))),
            ),
            (SendPhase::Sending, SendEvent::TransferFailed(e)) => (
                SendSession { file_name, phase: SendPhase::Finished },
                Some(SendAction::Finish(Err(Error::from(e)))),
            ),
            (
                SendPhase::Opening | SendPhase::Reporting | SendPhase::Connecting
                | SendPhase::Sending,
                SendEvent::Cancelled,
            ) => (
                SendSession { file_name, phase: SendPhase::Finished },
                Some(SendAction::Finish(Err(Error::Cancelled))),
            ),
            _ => (SendSession { file_name, phase }, None),
        }
    }
}

} // verus!
