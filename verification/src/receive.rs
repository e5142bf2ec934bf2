//! Receiving a file in one go, as a session: the offer under a code is waited for
//! and accepted at once.

use vstd::prelude::*;

use crate::accept;
use crate::accept::{AcceptAction, AcceptActionView, AcceptEvent, AcceptSession, AcceptView};
use crate::error;
use crate::error::{Error, ErrorView, IoErrorKind, IoFailure, IoFailureView};
use crate::file_name;
use crate::mailbox;
use crate::mailbox::{MailboxRequest, MailboxRequestView};
use crate::offer;
use crate::offer::{
    RequestAction, RequestActionView, RequestEvent, RequestEventView, RequestPhase, RequestSession,
    RequestView,
};
use crate::unique_name;
use crate::unique_name::{CreateUniqueView, OpenOutcome, MAX_ATTEMPTS};

verus! {

/// What is to be done next.
#[derive(Debug)]
pub enum ReceiveAction<R> {
    /// Open the mailbox.
    OpenMailbox(MailboxRequest),
    /// Wait for the sender and agree on a key.
    Connect,
    /// Wait for the offer.
    RequestFile,
    /// Keep the handle of the offer, and create a new file of this name in the
    /// destination directory.
    TakeOffer { request: R, name: String },
    /// Create a new file of this name instead.
    CreateFile { name: String },
    /// Accept the offer and receive the bytes into the file.
    Transfer,
    /// Return this: the name of the saved file.
    Finish(Result<String, Error>),
}

/// What came of an action.
#[derive(Debug)]
pub enum ReceiveEvent<R> {
    /// While the offer was waited for.
    Request(RequestEvent<R>),
    /// While the file was saved.
    Accept(AcceptEvent),
}

/// A [`ReceiveAction`], with its texts as sequences of characters.
pub enum ReceiveActionView<R> {
    OpenMailbox(MailboxRequestView),
    Connect,
    RequestFile,
    TakeOffer { request: R, name: Seq<char> },
    CreateFile { name: Seq<char> },
    Transfer,
    Finish(Result<Seq<char>, ErrorView>),
}

/// A [`ReceiveEvent`], with its text as a sequence of characters.
pub enum ReceiveEventView<R> {
    Request(RequestEventView<R>),
    Accept(AcceptEvent),
}

/// A session, as a model.
pub enum ReceiveView {
    Requesting(RequestView),
    Accepting(AcceptView),
}

impl<R> View for ReceiveAction<R> {
    type V = ReceiveActionView<R>;

    open spec fn view(&self) -> ReceiveActionView<R> {
        match *self {
            ReceiveAction::OpenMailbox(request) => ReceiveActionView::OpenMailbox(request@),
            ReceiveAction::Connect => ReceiveActionView::Connect,
            ReceiveAction::RequestFile => ReceiveActionView::RequestFile,
            ReceiveAction::TakeOffer { request, name } => ReceiveActionView::TakeOffer {
                request,
                name: name@,
            },
            ReceiveAction::CreateFile { name } => ReceiveActionView::CreateFile { name: name@ },
            ReceiveAction::Transfer => ReceiveActionView::Transfer,
            ReceiveAction::Finish(Ok(name)) => ReceiveActionView::Finish(Ok(name@)),
            ReceiveAction::Finish(Err(e)) => ReceiveActionView::Finish(Err(e@)),
        }
    }
}

impl<R> View for ReceiveEvent<R> {
    type V = ReceiveEventView<R>;

    open spec fn view(&self) -> ReceiveEventView<R> {
        match *self {
            ReceiveEvent::Request(event) => ReceiveEventView::Request(event@),
            ReceiveEvent::Accept(event) => ReceiveEventView::Accept(event),
        }
    }
}

/// What waiting for the offer wants becomes what receiving wants. An offer is
/// accepted at once.
pub open spec fn while_requesting<R>(
    session: RequestView,
    wanted: RequestActionView<R>,
) -> (ReceiveView, ReceiveActionView<R>) {
    match wanted {
        RequestActionView::OpenMailbox(request) => (
            ReceiveView::Requesting(session),
            ReceiveActionView::OpenMailbox(request),
        ),
        RequestActionView::Connect => (
            ReceiveView::Requesting(session),
            ReceiveActionView::Connect,
        ),
        RequestActionView::RequestFile => (
            ReceiveView::Requesting(session),
            ReceiveActionView::RequestFile,
        ),
        RequestActionView::Finish(Ok(pending)) => (
            ReceiveView::Accepting(accept::accept_begin(pending.file_name).0),
            ReceiveActionView::TakeOffer { request: pending.request, name: pending.file_name },
        ),
        RequestActionView::Finish(Err(e)) => (
            ReceiveView::Requesting(session),
            ReceiveActionView::Finish(Err(e)),
        ),
    }
}

/// What saving the file wants is what receiving wants.
pub open spec fn while_accepting<R>(wanted: AcceptActionView) -> ReceiveActionView<R> {
    match wanted {
        AcceptActionView::CreateFile { name } => ReceiveActionView::CreateFile { name },
        AcceptActionView::Transfer => ReceiveActionView::Transfer,
        AcceptActionView::Finish(r) => ReceiveActionView::Finish(r),
    }
}

/// How receiving the file under `code` begins.
pub open spec fn receive_begin<R>(code: Seq<char>) -> (ReceiveView, ReceiveActionView<R>) {
    let (session, wanted) = offer::request_begin::<R>(code);
    while_requesting(session, wanted)
}

impl ReceiveView {
    /// The session after `event`, and what it wants then. Waiting for the offer
    /// cannot be called off. An event that does not answer the pending action
    /// changes nothing and wants nothing.
    pub open spec fn after<R>(self, event: ReceiveEventView<R>) -> (
        ReceiveView,
        Option<ReceiveActionView<R>>,
    ) {
        match (self, event) {
            (ReceiveView::Requesting(session), ReceiveEventView::Request(event)) => {
                if event is Cancelled {
                    (self, None)
                } else {
                    match session.after(event) {
                        (next, Some(wanted)) => {
                            let (receiving, action) = while_requesting(next, wanted);
                            (receiving, Some(action))
                        },
                        (next, None) => (ReceiveView::Requesting(next), None),
                    }
                }
            },
            (ReceiveView::Accepting(session), ReceiveEventView::Accept(event)) => {
                match session.after(event) {
                    (next, Some(wanted)) => (
                        ReceiveView::Accepting(next),
                        Some(while_accepting(wanted)),
                    ),
                    (next, None) => (ReceiveView::Accepting(next), None),
                }
            },
            _ => (self, None),
        }
    }

    /// The actions that the session asks for while it is told `events`.
    pub open spec fn run<R>(self, events: Seq<ReceiveEventView<R>>) -> Seq<ReceiveActionView<R>>
        decreases events.len(),
    {
        if events.len() == 0 {
            Seq::empty()
        } else {
            let (next, wanted) = self.after(events[0]);
            let rest = next.run(events.skip(1));
            match wanted {
                Some(action) => seq![action] + rest,
                None => rest,
            }
        }
    }

    /// The session once it has been told `events`.
    pub open spec fn after_all<R>(self, events: Seq<ReceiveEventView<R>>) -> ReceiveView
        decreases events.len(),
    {
        if events.len() == 0 {
            self
        } else {
            self.after(events[0]).0.after_all(events.skip(1))
        }
    }
}

/// The session saves under a plain name, if it has come so far.
spec fn saves_plainly(session: ReceiveView) -> bool {
    session matches ReceiveView::Accepting(accepting) ==> exists|name: Seq<char>|
        file_name::is_plain(name) && #[trigger] accepting.saves(name)
}

/// The file that an action names, if it names one.
pub open spec fn file_of<R>(action: ReceiveActionView<R>) -> Option<Seq<char>> {
    match action {
        ReceiveActionView::TakeOffer { name, .. } => Some(name),
        ReceiveActionView::CreateFile { name } => Some(name),
        ReceiveActionView::Finish(Ok(name)) => Some(name),
        _ => None,
    }
}

proof fn lemma_step_is_plain<R>(session: ReceiveView, event: ReceiveEventView<R>)
    requires
        saves_plainly(session),
    ensures
        saves_plainly(session.after(event).0),
        session.after(event).1 matches Some(action) ==> (file_of(action) matches Some(name)
            ==> file_name::is_plain(name)),
{
    let (next, wanted) = session.after(event);
    match (session, event) {
        (ReceiveView::Requesting(_), ReceiveEventView::Request(inner)) => {
            if let RequestEventView::Offered { file_name, .. } = inner {
                let name = file_name::sanitized(file_name);
                file_name::sanitized_is_plain(file_name);
                accept::saving_begins_with_the_name(name);
                if let ReceiveView::Accepting(accepting) = next {
                    assert(accepting.saves(name));
                }
            }
        },
        (ReceiveView::Accepting(accepting), ReceiveEventView::Accept(inner)) => {
            let name = choose|name: Seq<char>|
                file_name::is_plain(name) && #[trigger] accepting.saves(name);
            accept::saving_keeps_to_the_name(accepting, inner, name);
            assert(accepting.after(inner).0.saves(name));
            if let Some(action) = accepting.after(inner).1 {
                accept::saved_files_have_plain_names(action, name);
            }
        },
        _ => {},
    }
}

proof fn lemma_run_is_plain<R>(session: ReceiveView, events: Seq<ReceiveEventView<R>>, i: int)
    requires
        saves_plainly(session),
        0 <= i < session.run(events).len(),
    ensures
        file_of(session.run(events)[i]) matches Some(name) ==> file_name::is_plain(name),
    decreases events.len(),
{
    let (next, wanted) = session.after(events[0]);
    let rest = next.run(events.skip(1));
    lemma_step_is_plain(session, events[0]);
    if wanted is Some {
        assert(session.run(events) == seq![wanted->0] + rest);
        if i > 0 {
            lemma_run_is_plain(next, events.skip(1), i - 1);
        }
    } else {
        lemma_run_is_plain(next, events.skip(1), i);
    }
}

/// Whatever the sender calls its file and whatever happens, every file that is
/// created, and the one that is returned, stands in the destination directory
/// itself.
pub proof fn received_files_stay_in_the_directory<R>(
    code: Seq<char>,
    events: Seq<ReceiveEventView<R>>,
    i: int,
)
    requires
        0 <= i < receive_begin::<R>(code).0.run(events).len(),
    ensures
        file_of(receive_begin::<R>(code).0.run(events)[i]) matches Some(name)
            ==> file_name::is_plain(name),
{
    lemma_run_is_plain(receive_begin::<R>(code).0, events, i);
}

/// Once the offer is taken, receiving is saving: it asks for what a session that
/// saves the file asks for.
pub proof fn receiving_saves_like_accepting<R>(session: AcceptView, events: Seq<AcceptEvent>)
    ensures
        ReceiveView::Accepting(session).run(
            events.map_values(|event: AcceptEvent| ReceiveEventView::<R>::Accept(event)),
        ) == session.run(events).map_values(
            |action: AcceptActionView| while_accepting::<R>(action),
        ),
    decreases events.len(),
{
    let told = events.map_values(|event: AcceptEvent| ReceiveEventView::<R>::Accept(event));
    let asked = session.run(events);
    let translate = |action: AcceptActionView| while_accepting::<R>(action);
    if events.len() > 0 {
        let (next, wanted) = session.after(events[0]);
        let rest = events.skip(1);
        receiving_saves_like_accepting::<R>(next, rest);
        assert(told.skip(1) =~= rest.map_values(
            |event: AcceptEvent| ReceiveEventView::<R>::Accept(event),
        ));
        if wanted is Some {
            assert(asked == seq![wanted->0] + next.run(rest));
            assert(asked.map_values(translate) =~= seq![while_accepting::<R>(wanted->0)]
                + next.run(rest).map_values(translate));
        }
    }
    assert(ReceiveView::Accepting(session).run(told) =~= asked.map_values(translate));
}

impl ReceiveView {
    /// `event` is one that can come where the sender offers a file called `offered`
    /// and the destination directory holds files with the names `taken`.
    pub open spec fn can_be_told<R>(
        self,
        event: ReceiveEventView<R>,
        offered: Seq<char>,
        taken: Set<Seq<char>>,
    ) -> bool {
        match (self, event) {
            (
                ReceiveView::Requesting(_),
                ReceiveEventView::Request(RequestEventView::Offered { file_name, .. }),
            ) => file_name == offered,
            (ReceiveView::Accepting(session), ReceiveEventView::Accept(event)) => {
                session.can_be_told(event, taken)
            },
            _ => true,
        }
    }

    /// Each of `events` is one that can come there when it comes.
    pub open spec fn can_run<R>(
        self,
        events: Seq<ReceiveEventView<R>>,
        offered: Seq<char>,
        taken: Set<Seq<char>>,
    ) -> bool
        decreases events.len(),
    {
        events.len() > 0 ==> self.can_be_told(events[0], offered, taken) && self.after(
            events[0],
        ).0.can_run(events.skip(1), offered, taken)
    }
}

/// The session saves under the first free name for `name`, or is on its way to it.
spec fn heads_for_free(session: ReceiveView, name: Seq<char>, taken: Set<Seq<char>>) -> bool {
    session matches ReceiveView::Accepting(accepting) ==> accepting.heads_for_free(name, taken)
}

proof fn lemma_step_heads_for_free<R>(
    session: ReceiveView,
    event: ReceiveEventView<R>,
    offered: Seq<char>,
    taken: Set<Seq<char>>,
)
    requires
        heads_for_free(session, file_name::sanitized(offered), taken),
        session.can_be_told(event, offered, taken),
    ensures
        heads_for_free(session.after(event).0, file_name::sanitized(offered), taken),
        session.after(event).1 matches Some(ReceiveActionView::Finish(result)) ==> accept::is_fair(
            result,
            file_name::sanitized(offered),
            taken,
        ),
{
    if let (ReceiveView::Accepting(accepting), ReceiveEventView::Accept(inner)) = (session, event) {
        accept::saving_heads_for_free(accepting, inner, file_name::sanitized(offered), taken);
    }
}

proof fn lemma_receiving_is_fair<R>(
    session: ReceiveView,
    events: Seq<ReceiveEventView<R>>,
    offered: Seq<char>,
    taken: Set<Seq<char>>,
    i: int,
)
    requires
        heads_for_free(session, file_name::sanitized(offered), taken),
        session.can_run(events, offered, taken),
        0 <= i < session.run(events).len(),
    ensures
        session.run(events)[i] matches ReceiveActionView::Finish(result) ==> accept::is_fair(
            result,
            file_name::sanitized(offered),
            taken,
        ),
    decreases events.len(),
{
    let (next, wanted) = session.after(events[0]);
    let rest = next.run(events.skip(1));
    lemma_step_heads_for_free(session, events[0], offered, taken);
    if wanted is Some {
        assert(session.run(events) == seq![wanted->0] + rest);
        if i > 0 {
            lemma_receiving_is_fair(next, events.skip(1), offered, taken, i - 1);
        }
    } else {
        lemma_receiving_is_fair(next, events.skip(1), offered, taken, i);
    }
}

/// Receiving a file never overwrites one, in any run: the name that is returned is
/// the first free one for the cleaned name of the offer. That there is no free name
/// is said only where there is none.
pub proof fn receiving_overwrites_nothing<R>(
    code: Seq<char>,
    events: Seq<ReceiveEventView<R>>,
    offered: Seq<char>,
    taken: Set<Seq<char>>,
    i: int,
)
    requires
        receive_begin::<R>(code).0.can_run(events, offered, taken),
        0 <= i < receive_begin::<R>(code).0.run(events).len(),
    ensures
        receive_begin::<R>(code).0.run(events)[i] matches ReceiveActionView::Finish(result)
            ==> accept::is_fair(result, file_name::sanitized(offered), taken),
{
    lemma_receiving_is_fair(receive_begin::<R>(code).0, events, offered, taken, i);
}

/// What happens when all goes well: the mailbox opens, the sender comes and offers
/// a file, the directory answers as it should, and the bytes arrive.
pub open spec fn good_events<R>(
    offered: Seq<char>,
    file_size: u64,
    request: R,
    taken: Set<Seq<char>>,
    refusal: std::io::Error,
) -> Seq<ReceiveEventView<R>> {
    let saving = accept::accept_begin(file_name::sanitized(offered)).0;
    seq![
        ReceiveEventView::Request(RequestEventView::MailboxOpened),
        ReceiveEventView::Request(RequestEventView::WormholeConnected),
        ReceiveEventView::Request(
            RequestEventView::Offered { file_name: offered, file_size, request },
        ),
    ] + accept::answers_of(saving, taken, refusal).push(AcceptEvent::Transferred).map_values(
        |event: AcceptEvent| ReceiveEventView::<R>::Accept(event),
    )
}

/// Where all goes well, the file is received: it is saved under the first free name
/// for the cleaned name of the offer, and fails only where all names are taken.
pub proof fn offered_file_is_received<R>(
    code: Seq<char>,
    offered: Seq<char>,
    file_size: u64,
    request: R,
    taken: Set<Seq<char>>,
    refusal: std::io::Error,
)
    requires
        mailbox::is_code(code),
    ensures
        ({
            let name = file_name::sanitized(offered);
            let events = good_events(offered, file_size, request, taken, refusal);
            let asked = receive_begin::<R>(code).0.run(events);
            &&& asked.len() > 0
            &&& match asked.last() {
                ReceiveActionView::Finish(Ok(saved)) => unique_name::is_first_free(
                    name,
                    taken,
                    saved,
                ),
                ReceiveActionView::Finish(Err(e)) => e == error::no_free_name()
                    && unique_name::first_are_taken(name, taken, MAX_ATTEMPTS as nat),
                _ => false,
            }
        }),
{
    let name = file_name::sanitized(offered);
    let saving = accept::accept_begin(name).0;
    let told = accept::answers_of(saving, taken, refusal).push(AcceptEvent::Transferred);
    let mapped = told.map_values(|event: AcceptEvent| ReceiveEventView::<R>::Accept(event));
    let events = good_events(offered, file_size, request, taken, refusal);
    let opening = receive_begin::<R>(code).0;
    let connecting = opening.after(events[0]).0;
    let requesting = connecting.after(events[1]).0;
    let accepting = requesting.after(events[2]).0;
    assert(accepting == ReceiveView::Accepting(saving));
    assert(events.skip(1).skip(1).skip(1) =~= mapped);
    assert(events.skip(1)[0] == events[1]);
    assert(events.skip(1).skip(1)[0] == events[2]);
    accept::saving_finds_the_free_name(name, taken, refusal);
    receiving_saves_like_accepting::<R>(saving, told);
    let asked = saving.run(told);
    let rest = accepting.run(mapped);
    assert(rest.len() == asked.len());
    assert(rest.last() == while_accepting::<R>(asked.last()));
    let third = requesting.run(events.skip(1).skip(1));
    assert(third == seq![requesting.after(events[2]).1->0] + rest);
    let second = connecting.run(events.skip(1));
    assert(second == seq![connecting.after(events[1]).1->0] + third);
    let first = opening.run(events);
    assert(first == seq![opening.after(events[0]).1->0] + second);
    assert(first.last() == rest.last());
}

/// How receiving begins: with the mailbox of the code, which has to be there already.
/// A text that is no code is refused.
pub proof fn receiving_begins_with_the_mailbox<R>(code: Seq<char>)
    ensures
        receive_begin::<R>(code).1 == if mailbox::is_code(code) {
            ReceiveActionView::<R>::OpenMailbox(
                MailboxRequestView::Connect { code, allocate: false },
            )
        } else {
            ReceiveActionView::<R>::Finish(Err(ErrorView::InvalidCode(code)))
        },
{
}

/// One more event adds its answer to the run, and nothing else changes.
proof fn lemma_one_more<R>(
    session: ReceiveView,
    events: Seq<ReceiveEventView<R>>,
    event: ReceiveEventView<R>,
)
    ensures
        session.after_all(events.push(event)) == session.after_all(events).after(event).0,
        session.run(events.push(event)) == match session.after_all(events).after(event).1 {
            Some(action) => session.run(events).push(action),
            None => session.run(events),
        },
    decreases events.len(),
{
    reveal_with_fuel(ReceiveView::run, 2);
    reveal_with_fuel(ReceiveView::after_all, 2);
    let told = events.push(event);
    if events.len() == 0 {
        assert(told.skip(1) =~= Seq::<ReceiveEventView<R>>::empty());
        assert(session.run(told) =~= match session.after(event).1 {
            Some(action) => seq![action],
            None => Seq::<ReceiveActionView<R>>::empty(),
        });
    } else {
        let (next, wanted) = session.after(events[0]);
        assert(told[0] == events[0]);
        assert(told.skip(1) =~= events.skip(1).push(event));
        lemma_one_more(next, events.skip(1), event);
        if wanted is Some {
            let rest = next.run(events.skip(1));
            if let Some(action) = next.after_all(events.skip(1)).after(event).1 {
                assert(seq![wanted->0] + rest.push(action) =~= (seq![wanted->0] + rest).push(
                    action,
                ));
            }
        }
    }
}

/// A session that asked for `asked` is in the state of the last of these actions.
spec fn is_pending<R>(session: ReceiveView, asked: Seq<ReceiveActionView<R>>) -> bool {
    match (session, asked.last()) {
        (ReceiveView::Requesting(waiting), ReceiveActionView::OpenMailbox(_)) => {
            waiting.phase == RequestPhase::Opening && asked.len() == 1
        },
        (ReceiveView::Requesting(waiting), ReceiveActionView::Connect) => {
            waiting.phase == RequestPhase::Connecting && asked.len() == 2
        },
        (ReceiveView::Requesting(waiting), ReceiveActionView::RequestFile) => {
            waiting.phase == RequestPhase::Requesting && asked.len() == 3
        },
        (ReceiveView::Requesting(waiting), ReceiveActionView::Finish(Err(_))) => {
            waiting.phase == RequestPhase::Finished
        },
        (
            ReceiveView::Accepting(AcceptView::Creating(search)),
            ReceiveActionView::TakeOffer { name, .. } | ReceiveActionView::CreateFile { name },
        ) => {
            &&& asked.len() >= 4
            &&& asked[3] matches ReceiveActionView::TakeOffer { name: offered, .. }
            &&& search == CreateUniqueView { name: offered, attempt: (asked.len() - 4) as nat }
            &&& search.attempt < MAX_ATTEMPTS
            &&& name == unique_name::candidate(offered, search.attempt)
        },
        (
            ReceiveView::Accepting(AcceptView::Transferring(chosen)),
            ReceiveActionView::Transfer,
        ) => {
            &&& asked.len() >= 2
            &&& asked[asked.len() - 2] is TakeOffer || asked[asked.len() - 2] is CreateFile
            &&& file_of(asked[asked.len() - 2]) == Some(chosen)
        },
        (ReceiveView::Accepting(AcceptView::Finished), ReceiveActionView::Finish(_)) => true,
        _ => false,
    }
}

proof fn lemma_pending<R>(code: Seq<char>, events: Seq<ReceiveEventView<R>>)
    ensures
        is_pending(
            receive_begin::<R>(code).0.after_all(events),
            seq![receive_begin::<R>(code).1] + receive_begin::<R>(code).0.run(events),
        ),
    decreases events.len(),
{
    let (session, first) = receive_begin::<R>(code);
    if events.len() > 0 {
        let before = events.drop_last();
        lemma_pending(code, before);
        assert(before.push(events.last()) =~= events);
        lemma_one_more(session, before, events.last());
        let asked = seq![first] + session.run(before);
        if let Some(action) = session.after_all(before).after(events.last()).1 {
            assert(seq![first] + session.run(events) =~= asked.push(action));
        }
    }
}

/// What a session answers, in every run, by what it asked for before and what it is
/// told then. The offer is taken as it came: with its handle, and under the cleaned
/// form of its name, which is the name that saving it starts on. Where a file is
/// there already, the next numbered form of that name is tried, a thousand names in
/// all. That the bytes arrived is answered with the name of the file that was created
/// last. Every failure, told while what failed is waited for, ends the session with
/// that very error; where nothing is offered the session ends as if it was called
/// off. Nothing else has an answer.
pub proof fn receiving_answers_what_it_is_told<R>(
    code: Seq<char>,
    events: Seq<ReceiveEventView<R>>,
    event: ReceiveEventView<R>,
)
    ensures
        ({
            let (session, first) = receive_begin::<R>(code);
            let asked = seq![first] + session.run(events);
            let then_asked = seq![first] + session.run(events.push(event));
            match (asked.last(), event) {
                (
                    ReceiveActionView::OpenMailbox(_),
                    ReceiveEventView::Request(RequestEventView::MailboxOpened),
                ) => then_asked == asked.push(ReceiveActionView::Connect),
                (
                    ReceiveActionView::Connect,
                    ReceiveEventView::Request(RequestEventView::WormholeConnected),
                ) => then_asked == asked.push(ReceiveActionView::RequestFile),
                (
                    ReceiveActionView::RequestFile,
                    ReceiveEventView::Request(
                        RequestEventView::Offered { file_name, file_size, request },
                    ),
                ) => {
                    let name = file_name::sanitized(file_name);
                    &&& then_asked == asked.push(ReceiveActionView::TakeOffer { request, name })
                    &&& session.after_all(events.push(event)) matches ReceiveView::Accepting(
                        AcceptView::Creating(search),
                    )
                    &&& search.wanted() == name
                },
                (
                    ReceiveActionView::RequestFile,
                    ReceiveEventView::Request(RequestEventView::NothingOffered),
                ) => then_asked == asked.push(
                    ReceiveActionView::Finish(Err(ErrorView::Cancelled)),
                ),
                (
                    ReceiveActionView::OpenMailbox(_) | ReceiveActionView::Connect,
                    ReceiveEventView::Request(RequestEventView::WormholeFailed(e)),
                ) => then_asked == asked.push(
                    ReceiveActionView::Finish(Err(ErrorView::Wormhole(e))),
                ),
                (
                    ReceiveActionView::RequestFile,
                    ReceiveEventView::Request(RequestEventView::TransferFailed(e)),
                ) => then_asked == asked.push(
                    ReceiveActionView::Finish(Err(ErrorView::Transfer(e))),
                ),
                (
                    ReceiveActionView::TakeOffer { .. } | ReceiveActionView::CreateFile { .. },
                    ReceiveEventView::Accept(AcceptEvent::CreateFile(OpenOutcome::Opened)),
                ) => then_asked == asked.push(ReceiveActionView::Transfer),
                (
                    ReceiveActionView::TakeOffer { .. } | ReceiveActionView::CreateFile { .. },
                    ReceiveEventView::Accept(
                        AcceptEvent::CreateFile(OpenOutcome::Failed { kind, error }),
                    ),
                ) => {
                    if kind != IoErrorKind::AlreadyExists {
                        then_asked == asked.push(
                            ReceiveActionView::Finish(
                                Err(ErrorView::Io(IoFailureView::System(error))),
                            ),
                        )
                    } else if asked.len() < 1003 {
                        &&& asked.len() >= 4
                        &&& asked[3] matches ReceiveActionView::TakeOffer { name, .. }
                        &&& then_asked == asked.push(
                            ReceiveActionView::CreateFile {
                                name: unique_name::candidate(name, (asked.len() - 3) as nat),
                            },
                        )
                    } else {
                        then_asked == asked.push(
                            ReceiveActionView::Finish(
                                Err(
                                    ErrorView::Io(
                                        IoFailureView::Raised {
                                            kind: IoErrorKind::AlreadyExists,
                                            message: "could not find a free file name"@,
                                        },
                                    ),
                                ),
                            ),
                        )
                    }
                },
                (
                    ReceiveActionView::Transfer,
                    ReceiveEventView::Accept(AcceptEvent::Transferred),
                ) => {
                    &&& asked.len() >= 2
                    &&& match asked[asked.len() - 2] {
                        ReceiveActionView::TakeOffer { name, .. } => {
                            then_asked == asked.push(ReceiveActionView::Finish(Ok(name)))
                        },
                        ReceiveActionView::CreateFile { name } => {
                            then_asked == asked.push(ReceiveActionView::Finish(Ok(name)))
                        },
                        _ => false,
                    }
                },
                (
                    ReceiveActionView::Transfer,
                    ReceiveEventView::Accept(AcceptEvent::TransferFailed(e)),
                ) => then_asked == asked.push(
                    ReceiveActionView::Finish(Err(ErrorView::Transfer(e))),
                ),
                _ => then_asked == asked,
            }
        }),
{
    let (session, first) = receive_begin::<R>(code);
    let asked = seq![first] + session.run(events);
    lemma_pending(code, events);
    lemma_one_more(session, events, event);
    if let Some(action) = session.after_all(events).after(event).1 {
        assert(seq![first] + session.run(events).push(action) =~= asked.push(action));
    }
}

/// In every run, the name that is returned is that of the file which was asked for
/// last, right before the bytes were received: the one of the offer, or the last one
/// that was tried instead.
pub proof fn returned_file_is_the_one_received<R>(
    code: Seq<char>,
    events: Seq<ReceiveEventView<R>>,
    i: int,
    saved: Seq<char>,
)
    requires
        0 <= i < receive_begin::<R>(code).0.run(events).len(),
        receive_begin::<R>(code).0.run(events)[i] == ReceiveActionView::<R>::Finish(Ok(saved)),
    ensures
        ({
            let asked = seq![receive_begin::<R>(code).1] + receive_begin::<R>(code).0.run(events);
            &&& i >= 1
            &&& asked[i] == ReceiveActionView::<R>::Transfer
            &&& match asked[i - 1] {
                ReceiveActionView::TakeOffer { name, .. } => name == saved,
                ReceiveActionView::CreateFile { name } => name == saved,
                _ => false,
            }
        }),
    decreases events.len(),
{
    let (session, first) = receive_begin::<R>(code);
    let before = events.drop_last();
    assert(before.push(events.last()) =~= events);
    lemma_one_more(session, before, events.last());
    if i < session.run(before).len() {
        returned_file_is_the_one_received(code, before, i, saved);
    } else {
        receiving_answers_what_it_is_told(code, before, events.last());
        lemma_pending(code, before);
        let asked = seq![first] + session.run(before);
        assert(asked.len() == i + 1);
    }
}

/// In every run, an offer that is taken is one that was told: it has the handle of
/// that offer, and the cleaned form of its name.
pub proof fn offers_are_taken_as_they_came<R>(
    code: Seq<char>,
    events: Seq<ReceiveEventView<R>>,
    i: int,
)
    requires
        0 <= i < receive_begin::<R>(code).0.run(events).len(),
    ensures
        receive_begin::<R>(code).0.run(events)[i] matches ReceiveActionView::TakeOffer {
            request,
            name,
        } ==> exists|k: int|
            0 <= k < events.len() && (#[trigger] events[k] matches ReceiveEventView::Request(
                RequestEventView::Offered { file_name, file_size, request: handle },
            ) && handle == request && name == file_name::sanitized(file_name)),
    decreases events.len(),
{
    let (session, first) = receive_begin::<R>(code);
    let before = events.drop_last();
    assert(before.push(events.last()) =~= events);
    lemma_one_more(session, before, events.last());
    if session.run(events)[i] is TakeOffer {
        if i < session.run(before).len() {
            offers_are_taken_as_they_came(code, before, i);
            let k = choose|k: int|
                0 <= k < before.len() && (#[trigger] before[k] matches ReceiveEventView::Request(
                    RequestEventView::Offered { file_name, file_size, request: handle },
                ) && handle == session.run(events)[i]->request
                    && session.run(events)[i]->TakeOffer_name == file_name::sanitized(file_name));
            assert(events[k] == before[k]);
        } else {
            lemma_pending(code, before);
            assert(events[before.len() as int] == events.last());
        }
    }
}

#[derive(Debug)]
enum ReceiveState {
    Requesting(RequestSession),
    Accepting(AcceptSession),
}

/// A session that receives a file.
#[derive(Debug)]
pub struct ReceiveSession {
    state: ReceiveState,
}

impl View for ReceiveSession {
    type V = ReceiveView;

    closed spec fn view(&self) -> ReceiveView {
        match self.state {
            ReceiveState::Requesting(session) => ReceiveView::Requesting(session@),
            ReceiveState::Accepting(session) => ReceiveView::Accepting(session@),
        }
    }
}

/// The model of an optional action.
pub open spec fn wanted_view<R>(wanted: Option<ReceiveAction<R>>) -> Option<ReceiveActionView<R>> {
    match wanted {
        Some(action) => Some(action@),
        None => None,
    }
}

/// Starts to receive the file offered under `code`. The sender's name for it is
/// cleaned, and no existing file is overwritten.
pub fn receive_file<R>(code: &str) -> (r: (ReceiveSession, ReceiveAction<R>))
    ensures
        (r.0@, r.1@) == receive_begin::<R>(code@),
        if mailbox::is_code(code@) {
            &&& r.0@ == ReceiveView::Requesting(RequestView { phase: RequestPhase::Opening })
            &&& r.1 matches ReceiveAction::OpenMailbox(
                MailboxRequest::Connect { code: c, allocate },
            )
            &&& c@ == code@
            &&& !allocate
        } else {
            &&& r.1 matches ReceiveAction::Finish(Err(Error::InvalidCode(text)))
            &&& text@ == code@
        },
{
    let (session, wanted) = offer::request_receive::<R>(code);
    ReceiveSession::requesting(session, wanted)
}

impl ReceiveSession {
    fn requesting<R>(session: RequestSession, wanted: RequestAction<R>) -> (r: (
        ReceiveSession,
        ReceiveAction<R>,
    ))
        ensures
            (r.0@, r.1@) == while_requesting(session@, wanted@),
            match wanted {
                RequestAction::OpenMailbox(request) => {
                    r.0@ == ReceiveView::Requesting(session@) && r.1 == ReceiveAction::<
                        R,
                    >::OpenMailbox(request)
                },
                RequestAction::Connect => {
                    r.0@ == ReceiveView::Requesting(session@) && r.1 is Connect
                },
                RequestAction::RequestFile => {
                    r.0@ == ReceiveView::Requesting(session@) && r.1 is RequestFile
                },
                RequestAction::Finish(Ok(pending)) => {
                    &&& r.1 matches ReceiveAction::TakeOffer { request, name }
                    &&& request == pending.request
                    &&& name@ == pending.file_name@
                    &&& r.0@ == ReceiveView::Accepting(
                        AcceptView::Creating(CreateUniqueView { name: name@, attempt: 0 }),
                    )
                },
                RequestAction::Finish(Err(e)) => {
                    r.0@ == ReceiveView::Requesting(session@) && r.1 == ReceiveAction::<R>::Finish(
                        Err(e),
                    )
                },
            },
    {
        match wanted {
            RequestAction::OpenMailbox(request) => (
                ReceiveSession { state: ReceiveState::Requesting(session) },
                ReceiveAction::OpenMailbox(request),
            ),
            RequestAction::Connect => (
                ReceiveSession { state: ReceiveState::Requesting(session) },
                ReceiveAction::Connect,
            ),
            RequestAction::RequestFile => (
                ReceiveSession { state: ReceiveState::Requesting(session) },
                ReceiveAction::RequestFile,
            ),
            RequestAction::Finish(Ok(pending)) => {
                let name = pending.file_name.clone();
                let (request, accepting, _) = pending.accept();
                (
                    ReceiveSession { state: ReceiveState::Accepting(accepting) },
                    ReceiveAction::TakeOffer { request, name },
                )
            },
            RequestAction::Finish(Err(e)) => (
                ReceiveSession { state: ReceiveState::Requesting(session) },
                ReceiveAction::Finish(Err(e)),
            ),
        }
    }

    fn accepting<R>(wanted: AcceptAction) -> (action: ReceiveAction<R>)
        ensures
            action@ == while_accepting::<R>(wanted@),
            match wanted {
                AcceptAction::CreateFile { name } => action == ReceiveAction::<R>::CreateFile {
                    name,
                },
                AcceptAction::Transfer => action is Transfer,
                AcceptAction::Finish(result) => action == ReceiveAction::<R>::Finish(result),
            },
    {
        match wanted {
            AcceptAction::CreateFile { name } => ReceiveAction::CreateFile { name },
            AcceptAction::Transfer => ReceiveAction::Transfer,
            AcceptAction::Finish(r) => ReceiveAction::Finish(r),
        }
    }

    /// Goes on after an event, and says what is to be done next. An event that
    /// does not answer the pending action is ignored.
    pub fn after<R>(self, event: ReceiveEvent<R>) -> (r: (
        ReceiveSession,
        Option<ReceiveAction<R>>,
    ))
        ensures
            (r.0@, wanted_view(r.1)) == self@.after(event@),
            match (self@, event) {
                (
                    ReceiveView::Requesting(session),
                    ReceiveEvent::Request(RequestEvent::MailboxOpened),
                ) if session.phase == RequestPhase::Opening => r.1 matches Some(
                    ReceiveAction::Connect,
                ),
                (
                    ReceiveView::Requesting(session),
                    ReceiveEvent::Request(RequestEvent::WormholeConnected),
                ) if session.phase == RequestPhase::Connecting => r.1 matches Some(
                    ReceiveAction::RequestFile,
                ),
                (
                    ReceiveView::Requesting(session),
                    ReceiveEvent::Request(RequestEvent::Offered { file_name, request, .. }),
                ) if session.phase == RequestPhase::Requesting => {
                    &&& r.1 matches Some(ReceiveAction::TakeOffer { request: handle, name })
                    &&& handle == request
                    &&& name@ == file_name::sanitized(file_name@)
                    &&& r.0@ == ReceiveView::Accepting(
                        AcceptView::Creating(CreateUniqueView { name: name@, attempt: 0 }),
                    )
                },
                (
                    ReceiveView::Requesting(session),
                    ReceiveEvent::Request(RequestEvent::WormholeFailed(e)),
                ) if session.phase == RequestPhase::Opening || session.phase
                    == RequestPhase::Connecting => r.1 == Some(
                    ReceiveAction::<R>::Finish(Err(Error::Wormhole(e))),
                ),
                (
                    ReceiveView::Requesting(session),
                    ReceiveEvent::Request(RequestEvent::TransferFailed(e)),
                ) if session.phase == RequestPhase::Requesting => r.1 == Some(
                    ReceiveAction::<R>::Finish(Err(Error::Transfer(e))),
                ),
                (
                    ReceiveView::Requesting(session),
                    ReceiveEvent::Request(RequestEvent::NothingOffered),
                ) if session.phase == RequestPhase::Requesting => r.1 matches Some(
                    ReceiveAction::Finish(Err(Error::Cancelled)),
                ),
                (
                    ReceiveView::Accepting(AcceptView::Creating(search)),
                    ReceiveEvent::Accept(AcceptEvent::CreateFile(OpenOutcome::Opened)),
                ) => {
                    &&& r.1 matches Some(ReceiveAction::Transfer)
                    &&& r.0@ == ReceiveView::Accepting(
                        AcceptView::Transferring(
                            unique_name::candidate(search.name, search.attempt),
                        ),
                    )
                },
                (
                    ReceiveView::Accepting(AcceptView::Creating(search)),
                    ReceiveEvent::Accept(
                        AcceptEvent::CreateFile(OpenOutcome::Failed { kind, error }),
                    ),
                ) => if kind != IoErrorKind::AlreadyExists {
                    r.1 == Some(
                        ReceiveAction::<R>::Finish(Err(Error::Io(IoFailure::System(error)))),
                    )
                } else if search.attempt < 999 {
                    &&& r.1 matches Some(ReceiveAction::CreateFile { name })
                    &&& name@ == unique_name::candidate(search.name, search.attempt + 1)
                } else {
                    &&& r.1 matches Some(
                        ReceiveAction::Finish(Err(Error::Io(IoFailure::Raised { kind, message }))),
                    )
                    &&& kind == IoErrorKind::AlreadyExists
                    &&& message@ == "could not find a free file name"@
                },
                (
                    ReceiveView::Accepting(AcceptView::Transferring(name)),
                    ReceiveEvent::Accept(AcceptEvent::Transferred),
                ) => {
                    &&& r.1 matches Some(ReceiveAction::Finish(Ok(saved)))
                    &&& saved@ == name
                },
                (
                    ReceiveView::Accepting(AcceptView::Transferring(_)),
                    ReceiveEvent::Accept(AcceptEvent::TransferFailed(e)),
                ) => r.1 == Some(ReceiveAction::<R>::Finish(Err(Error::Transfer(e)))),
                (state, _) => r.0@ == state && r.1 is None,
            },
    {
        match (self.state, event) {
            (ReceiveState::Requesting(session), ReceiveEvent::Request(event)) => {
                if let RequestEvent::Cancelled = event {
                    return (ReceiveSession { state: ReceiveState::Requesting(session) }, None);
                }
                let (next, wanted) = session.after(event);
                match wanted {
                    Some(wanted) => {
                        let (receiving, action) = ReceiveSession::requesting(next, wanted);
                        (receiving, Some(action))
                    },
                    None => (ReceiveSession { state: ReceiveState::Requesting(next) }, None),
                }
            },
            (ReceiveState::Accepting(session), ReceiveEvent::Accept(event)) => {
                let (next, wanted) = session.after(event);
                let action = match wanted {
                    Some(wanted) => Some(ReceiveSession::accepting(wanted)),
                    None => None,
                };
                (ReceiveSession { state: ReceiveState::Accepting(next) }, action)
            },
            (state, _) => (ReceiveSession { state }, None),
        }
    }
}

} // verus!
