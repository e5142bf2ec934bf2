//! Saving an accepted file, as a session: a new file is created under a free
//! name, then the bytes are received into it.

use vstd::prelude::*;

use crate::error;
use crate::error::{Error, ErrorView, IoErrorKind, IoFailure, IoFailureView};
use crate::file_name;
use crate::unique_name;
use crate::unique_name::{
    CreateUnique, CreateUniqueView, OpenOutcome, UniqueStep, UniqueStepView, MAX_ATTEMPTS,
};

verus! {

/// What is to be done next.
#[derive(Debug)]
pub enum AcceptAction {
    /// Create a new file of this name in the destination directory. A file that is
    /// there already must not be opened.
    CreateFile { name: String },
    /// Accept the offer and receive the bytes into the file.
    Transfer,
    /// Return this: the name of the saved file.
    Finish(Result<String, Error>),
}

/// What came of an action.
#[derive(Debug)]
pub enum AcceptEvent {
    /// The file was to be created.
    CreateFile(OpenOutcome),
    /// The bytes are there.
    Transferred,
    /// Receiving them failed.
    TransferFailed(magic_wormhole::transfer::TransferError),
}

/// An [`AcceptAction`], with its texts as sequences of characters.
pub enum AcceptActionView {
    CreateFile { name: Seq<char> },
    Transfer,
    Finish(Result<Seq<char>, ErrorView>),
}

/// A session, as a model.
pub enum AcceptView {
    /// A free name is searched for.
    Creating(CreateUniqueView),
    /// The bytes are received into the file of this name.
    Transferring(Seq<char>),
    /// It is over.
    Finished,
}

impl View for AcceptAction {
    type V = AcceptActionView;

    open spec fn view(&self) -> AcceptActionView {
        match *self {
            AcceptAction::CreateFile { name } => AcceptActionView::CreateFile { name: name@ },
            AcceptAction::Transfer => AcceptActionView::Transfer,
            AcceptAction::Finish(Ok(name)) => AcceptActionView::Finish(Ok(name@)),
            AcceptAction::Finish(Err(e)) => AcceptActionView::Finish(Err(e@)),
        }
    }
}

/// How saving a file offered as `name` begins: with the attempt to create it.
pub open spec fn accept_begin(name: Seq<char>) -> (AcceptView, AcceptActionView) {
    (
        AcceptView::Creating(unique_name::search_for(name)),
        AcceptActionView::CreateFile { name },
    )
}

impl AcceptView {
    /// The session after `event`, and what it wants then. An event that does not
    /// answer the pending action changes nothing and wants nothing.
    pub open spec fn after(self, event: AcceptEvent) -> (AcceptView, Option<AcceptActionView>) {
        match (self, event) {
            (AcceptView::Creating(search), AcceptEvent::CreateFile(outcome)) => {
                match search.after(outcome) {
                    UniqueStepView::Chosen(name) => (
                        AcceptView::Transferring(name),
                        Some(AcceptActionView::Transfer),
                    ),
                    UniqueStepView::TryNext(next) => (
                        AcceptView::Creating(next),
                        Some(AcceptActionView::CreateFile { name: next.wanted() }),
                    ),
                    UniqueStepView::Failed(e) => (
                        AcceptView::Finished,
                        Some(AcceptActionView::Finish(Err(e))),
                    ),
                }
            },
            (AcceptView::Transferring(name), AcceptEvent::Transferred) => (
                AcceptView::Finished,
                Some(AcceptActionView::Finish(Ok(name))),
            ),
            (AcceptView::Transferring(_), AcceptEvent::TransferFailed(e)) => (
                AcceptView::Finished,
                Some(AcceptActionView::Finish(Err(ErrorView::Transfer(e)))),
            ),
            _ => (self, None),
        }
    }

    /// The actions that the session asks for while it is told `events`.
    pub open spec fn run(self, events: Seq<AcceptEvent>) -> Seq<AcceptActionView>
        decreases events.len(),
    {
        if events.len() == 0 {
            Seq::empty()
        } else {
            let (next, wanted) = self.after(events[0]);
            let rest = next.run(events.skip(1));
            match wanted {
                Some(action) => seq![action] + rest,
                None => rest,
            }
        }
    }

    /// The session once it has been told `events`.
    pub open spec fn after_all(self, events: Seq<AcceptEvent>) -> AcceptView
        decreases events.len(),
    {
        if events.len() == 0 {
            self
        } else {
            self.after(events[0]).0.after_all(events.skip(1))
        }
    }

    /// The session works on a file like `name`: on one of the names that are tried
    /// for it.
    pub open spec fn saves(self, name: Seq<char>) -> bool {
        match self {
            AcceptView::Creating(search) => search.name == name && search.attempt < MAX_ATTEMPTS,
            AcceptView::Transferring(chosen) => exists|n: nat|
                n < MAX_ATTEMPTS && chosen == #[trigger] unique_name::candidate(name, n),
            AcceptView::Finished => true,
        }
    }
}

/// The action names a file, if it does, that is tried for `name`.
pub open spec fn is_about(action: AcceptActionView, name: Seq<char>) -> bool {
    match action {
        AcceptActionView::CreateFile { name: tried } => exists|n: nat|
            n < MAX_ATTEMPTS && tried == #[trigger] unique_name::candidate(name, n),
        AcceptActionView::Finish(Ok(saved)) => exists|n: nat|
            n < MAX_ATTEMPTS && saved == #[trigger] unique_name::candidate(name, n),
        _ => true,
    }
}

/// Only names that are tried for the offered one are ever created or returned.
pub proof fn saving_begins_with_the_name(name: Seq<char>)
    ensures
        accept_begin(name).0.saves(name),
        is_about(accept_begin(name).1, name),
{
    assert(name == unique_name::candidate(name, 0));
}

/// A session for `name` stays one, and asks for nothing that is not about it.
pub proof fn saving_keeps_to_the_name(session: AcceptView, event: AcceptEvent, name: Seq<char>)
    requires
        session.saves(name),
    ensures
        session.after(event).0.saves(name),
        session.after(event).1 matches Some(action) ==> is_about(action, name),
{
}

/// A file that is created or returned for a plain name has a plain name.
pub proof fn saved_files_have_plain_names(action: AcceptActionView, name: Seq<char>)
    requires
        file_name::is_plain(name),
        is_about(action, name),
    ensures
        match action {
            AcceptActionView::CreateFile { name: tried } => file_name::is_plain(tried),
            AcceptActionView::Finish(Ok(saved)) => file_name::is_plain(saved),
            _ => true,
        },
{
    let found = match action {
        AcceptActionView::CreateFile { name: tried } => Some(tried),
        AcceptActionView::Finish(Ok(saved)) => Some(saved),
        _ => None,
    };
    if let Some(file) = found {
        let n = choose|n: nat|
            n < MAX_ATTEMPTS && file == #[trigger] unique_name::candidate(name, n);
        unique_name::candidates_are_plain(name, n);
    }
}

/// A session that is over asks for nothing any more.
pub proof fn finished_saving_stays_finished(session: AcceptView, events: Seq<AcceptEvent>)
    requires
        session is Finished,
    ensures
        session.run(events) == Seq::<AcceptActionView>::empty(),
    decreases events.len(),
{
    if events.len() > 0 {
        finished_saving_stays_finished(session, events.skip(1));
    }
}

proof fn lemma_transferred_file(name: Seq<char>, events: Seq<AcceptEvent>, i: int, saved: Seq<char>)
    requires
        0 <= i < AcceptView::Transferring(name).run(events).len(),
        AcceptView::Transferring(name).run(events)[i] == AcceptActionView::Finish(Ok(saved)),
    ensures
        i == 0,
        saved == name,
    decreases events.len(),
{
    let session = AcceptView::Transferring(name);
    let (next, wanted) = session.after(events[0]);
    if wanted is Some {
        finished_saving_stays_finished(next, events.skip(1));
    } else {
        lemma_transferred_file(name, events.skip(1), i, saved);
    }
}

proof fn lemma_created_file(
    search: CreateUniqueView,
    events: Seq<AcceptEvent>,
    i: int,
    saved: Seq<char>,
)
    requires
        0 <= i < AcceptView::Creating(search).run(events).len(),
        AcceptView::Creating(search).run(events)[i] == AcceptActionView::Finish(Ok(saved)),
    ensures
        ({
            let pending = AcceptActionView::CreateFile { name: search.wanted() };
            let asked = seq![pending] + AcceptView::Creating(search).run(events);
            &&& i >= 1
            &&& asked[i] == AcceptActionView::Transfer
            &&& asked[i - 1] == (AcceptActionView::CreateFile { name: saved })
        }),
    decreases events.len(),
{
    let session = AcceptView::Creating(search);
    let (next, wanted) = session.after(events[0]);
    let rest = next.run(events.skip(1));
    if wanted is Some {
        assert(session.run(events) == seq![wanted->0] + rest);
        match next {
            AcceptView::Creating(later) => {
                lemma_created_file(later, events.skip(1), i - 1, saved);
            },
            AcceptView::Transferring(name) => {
                lemma_transferred_file(name, events.skip(1), i - 1, saved);
            },
            AcceptView::Finished => {
                finished_saving_stays_finished(next, events.skip(1));
            },
        }
    } else {
        lemma_created_file(search, events.skip(1), i, saved);
    }
}

/// The name that is returned is that of the file which was created last, and
/// which the bytes went into.
pub proof fn returned_file_was_created(
    name: Seq<char>,
    events: Seq<AcceptEvent>,
    i: int,
    saved: Seq<char>,
)
    requires
        0 <= i < accept_begin(name).0.run(events).len(),
        accept_begin(name).0.run(events)[i] == AcceptActionView::Finish(Ok(saved)),
    ensures
        ({
            let asked = seq![accept_begin(name).1] + accept_begin(name).0.run(events);
            &&& i >= 1
            &&& asked[i] == AcceptActionView::Transfer
            &&& asked[i - 1] == (AcceptActionView::CreateFile { name: saved })
        }),
{
    lemma_created_file(unique_name::search_for(name), events, i, saved);
}

proof fn lemma_no_transfer_later(session: AcceptView, events: Seq<AcceptEvent>, i: int)
    requires
        !(session is Creating),
        0 <= i < session.run(events).len(),
    ensures
        session.run(events)[i] is Finish,
    decreases events.len(),
{
    let (next, wanted) = session.after(events[0]);
    if wanted is Some {
        finished_saving_stays_finished(next, events.skip(1));
    } else {
        lemma_no_transfer_later(session, events.skip(1), i);
    }
}

/// Every run keeps its order, however it ends: files are tried until one is
/// created, then the bytes are received, once, and after that nothing is asked for
/// but the end.
pub proof fn saving_keeps_its_order(session: AcceptView, events: Seq<AcceptEvent>, i: int, j: int)
    requires
        0 <= i < j < session.run(events).len(),
    ensures
        session.run(events)[i] is CreateFile || (session.run(events)[i] is Transfer
            && session.run(events)[j] is Finish),
    decreases events.len(),
{
    let (next, wanted) = session.after(events[0]);
    let rest = next.run(events.skip(1));
    if wanted is Some {
        assert(session.run(events) == seq![wanted->0] + rest);
        if i > 0 {
            saving_keeps_its_order(next, events.skip(1), i - 1, j - 1);
        } else if next is Finished {
            finished_saving_stays_finished(next, events.skip(1));
        } else if next is Transferring {
            lemma_no_transfer_later(next, events.skip(1), j - 1);
        }
    } else {
        saving_keeps_its_order(next, events.skip(1), i, j);
    }
}

/// What opening a new file under the name `wanted` can lead to in a directory whose
/// files have the names `taken`: a file is created only where there is none, and it
/// is said to be there only where it is. Any other error may come at any time.
pub open spec fn can_happen(
    outcome: OpenOutcome,
    wanted: Seq<char>,
    taken: Set<Seq<char>>,
) -> bool {
    match outcome {
        OpenOutcome::Opened => !taken.contains(wanted),
        OpenOutcome::Failed { kind, .. } => kind == IoErrorKind::AlreadyExists ==> taken.contains(
            wanted,
        ),
    }
}

impl AcceptView {
    /// `event` is one that the directory can lead to.
    pub open spec fn can_be_told(self, event: AcceptEvent, taken: Set<Seq<char>>) -> bool {
        match (self, event) {
            (AcceptView::Creating(search), AcceptEvent::CreateFile(outcome)) => can_happen(
                outcome,
                search.wanted(),
                taken,
            ),
            _ => true,
        }
    }

    /// Each of `events` is one that the directory can lead to when it comes.
    pub open spec fn can_run(self, events: Seq<AcceptEvent>, taken: Set<Seq<char>>) -> bool
        decreases events.len(),
    {
        events.len() > 0 ==> self.can_be_told(events[0], taken) && self.after(events[0]).0.can_run(
            events.skip(1),
            taken,
        )
    }

    /// The session saves under the first free name for `name`, or is on its way to
    /// it.
    pub open spec fn heads_for_free(self, name: Seq<char>, taken: Set<Seq<char>>) -> bool {
        match self {
            AcceptView::Creating(search) => {
                &&& search.name == name
                &&& search.attempt < MAX_ATTEMPTS
                &&& unique_name::first_are_taken(name, taken, search.attempt)
            },
            AcceptView::Transferring(chosen) => unique_name::is_first_free(name, taken, chosen),
            AcceptView::Finished => true,
        }
    }
}

/// What may be returned for `name`: the first free name, or, where all names are
/// taken, the error that says so.
pub open spec fn is_fair(
    result: Result<Seq<char>, ErrorView>,
    name: Seq<char>,
    taken: Set<Seq<char>>,
) -> bool {
    match result {
        Ok(saved) => unique_name::is_first_free(name, taken, saved),
        Err(e) => e == error::no_free_name() ==> unique_name::first_are_taken(
            name,
            taken,
            MAX_ATTEMPTS as nat,
        ),
    }
}

/// A session that heads for the first free name goes on to do so, and returns
/// nothing else.
pub proof fn saving_heads_for_free(
    session: AcceptView,
    event: AcceptEvent,
    name: Seq<char>,
    taken: Set<Seq<char>>,
)
    requires
        session.heads_for_free(name, taken),
        session.can_be_told(event, taken),
    ensures
        session.after(event).0.heads_for_free(name, taken),
        session.after(event).1 matches Some(AcceptActionView::Finish(result)) ==> is_fair(
            result,
            name,
            taken,
        ),
{
}

proof fn lemma_saving_is_fair(
    session: AcceptView,
    events: Seq<AcceptEvent>,
    name: Seq<char>,
    taken: Set<Seq<char>>,
    i: int,
)
    requires
        session.heads_for_free(name, taken),
        session.can_run(events, taken),
        0 <= i < session.run(events).len(),
    ensures
        session.run(events)[i] matches AcceptActionView::Finish(result) ==> is_fair(
            result,
            name,
            taken,
        ),
    decreases events.len(),
{
    let (next, wanted) = session.after(events[0]);
    let rest = next.run(events.skip(1));
    saving_heads_for_free(session, events[0], name, taken);
    if wanted is Some {
        assert(session.run(events) == seq![wanted->0] + rest);
        if i > 0 {
            lemma_saving_is_fair(next, events.skip(1), name, taken, i - 1);
        }
    } else {
        lemma_saving_is_fair(next, events.skip(1), name, taken, i);
    }
}

/// Saving a file never overwrites one, in any run: the name that is returned was
/// free, and it is the first free one. That there is no free name is said only where
/// there is none.
pub proof fn saving_overwrites_nothing(
    name: Seq<char>,
    taken: Set<Seq<char>>,
    events: Seq<AcceptEvent>,
    i: int,
)
    requires
        accept_begin(name).0.can_run(events, taken),
        0 <= i < accept_begin(name).0.run(events).len(),
    ensures
        accept_begin(name).0.run(events)[i] matches AcceptActionView::Finish(result) ==> is_fair(
            result,
            name,
            taken,
        ),
{
    lemma_saving_is_fair(accept_begin(name).0, events, name, taken, i);
}

/// How a directory whose files have the names `taken` answers a session, up to the
/// transfer. The operating system refuses to create a file that is there, with
/// `refusal`.
pub open spec fn answers_of(
    session: AcceptView,
    taken: Set<Seq<char>>,
    refusal: std::io::Error,
) -> Seq<AcceptEvent>
    decreases
            if session is Creating {
                MAX_ATTEMPTS - session->Creating_0.attempt
            } else {
                0
            },
{
    match session {
        AcceptView::Creating(search) => {
            let outcome = if taken.contains(search.wanted()) {
                OpenOutcome::Failed { kind: IoErrorKind::AlreadyExists, error: refusal }
            } else {
                OpenOutcome::Opened
            };
            let event = AcceptEvent::CreateFile(outcome);
            let next = session.after(event).0;
            if next is Creating {
                seq![event] + answers_of(next, taken, refusal)
            } else {
                seq![event]
            }
        },
        _ => Seq::empty(),
    }
}

/// What a session returns in such a directory where the bytes then arrive.
spec fn returned_in(
    search: CreateUniqueView,
    taken: Set<Seq<char>>,
    refusal: std::io::Error,
) -> Result<Seq<char>, ErrorView> {
    match unique_name::settled(search, taken, refusal) {
        UniqueStepView::Chosen(saved) => Ok(saved),
        UniqueStepView::TryNext(_) => arbitrary(),
        UniqueStepView::Failed(e) => Err(e),
    }
}

proof fn lemma_saved_in(search: CreateUniqueView, taken: Set<Seq<char>>, refusal: std::io::Error)
    requires
        search.attempt < MAX_ATTEMPTS,
    ensures
        ({
            let session = AcceptView::Creating(search);
            let told = answers_of(session, taken, refusal).push(AcceptEvent::Transferred);
            &&& session.run(told).len() > 0
            &&& session.run(told).last() == AcceptActionView::Finish(
                returned_in(search, taken, refusal),
            )
            &&& session.can_run(told, taken)
        }),
    decreases MAX_ATTEMPTS - search.attempt,
{
    reveal_with_fuel(AcceptView::run, 3);
    reveal_with_fuel(AcceptView::can_run, 3);
    let session = AcceptView::Creating(search);
    let answers = answers_of(session, taken, refusal);
    let told = answers.push(AcceptEvent::Transferred);
    let (next, wanted) = session.after(told[0]);
    if let AcceptView::Creating(later) = next {
        lemma_saved_in(later, taken, refusal);
        let rest = answers_of(next, taken, refusal).push(AcceptEvent::Transferred);
        assert(told.skip(1) =~= rest);
        assert(session.run(told) == seq![wanted->0] + next.run(rest));
        assert(session.run(told).last() == next.run(rest).last());
    } else {
        assert(told.skip(1) =~= seq![AcceptEvent::Transferred]);
        assert(told.skip(1).skip(1) =~= Seq::<AcceptEvent>::empty());
        assert(session.run(told) == seq![wanted->0] + next.run(told.skip(1)));
        if next is Finished {
            finished_saving_stays_finished(next, told.skip(1));
        } else {
            assert(next.run(told.skip(1)) =~= seq![
                AcceptActionView::Finish(returned_in(search, taken, refusal)),
            ]);
        }
    }
}

/// In a directory that answers as it should, saving ends, and ends well if it can:
/// where the bytes arrive, the first free name is returned, and the search fails
/// only where all names are taken.
pub proof fn saving_finds_the_free_name(
    name: Seq<char>,
    taken: Set<Seq<char>>,
    refusal: std::io::Error,
)
    ensures
        ({
            let session = accept_begin(name).0;
            let told = answers_of(session, taken, refusal).push(AcceptEvent::Transferred);
            &&& session.can_run(told, taken)
            &&& session.run(told).len() > 0
            &&& match session.run(told).last() {
                AcceptActionView::Finish(Ok(saved)) => unique_name::is_first_free(
                    name,
                    taken,
                    saved,
                ),
                AcceptActionView::Finish(Err(e)) => e == error::no_free_name()
                    && unique_name::first_are_taken(name, taken, MAX_ATTEMPTS as nat),
                _ => false,
            }
        }),
{
    lemma_saved_in(unique_name::search_for(name), taken, refusal);
    unique_name::existing_files_are_kept(name, taken, refusal);
}

/// One more event adds its answer to the run, and nothing else changes.
proof fn lemma_one_more(session: AcceptView, events: Seq<AcceptEvent>, event: AcceptEvent)
    ensures
        session.after_all(events.push(event)) == session.after_all(events).after(event).0,
        session.run(events.push(event)) == match session.after_all(events).after(event).1 {
            Some(action) => session.run(events).push(action),
            None => session.run(events),
        },
    decreases events.len(),
{
    reveal_with_fuel(AcceptView::run, 2);
    reveal_with_fuel(AcceptView::after_all, 2);
    let told = events.push(event);
    if events.len() == 0 {
        assert(told.skip(1) =~= Seq::<AcceptEvent>::empty());
        assert(session.run(told) =~= match session.after(event).1 {
            Some(action) => seq![action],
            None => Seq::<AcceptActionView>::empty(),
        });
    } else {
        let (next, wanted) = session.after(events[0]);
        assert(told[0] == events[0]);
        assert(told.skip(1) =~= events.skip(1).push(event));
        lemma_one_more(next, events.skip(1), event);
        if wanted is Some {
            let rest = next.run(events.skip(1));
            if let Some(action) = next.after_all(events.skip(1)).after(event).1 {
                assert(seq![wanted->0] + rest.push(action) =~= (seq![wanted->0] + rest).push(
                    action,
                ));
            }
        }
    }
}

/// The state is that of the action which was asked for last: while a file is to be
/// created, as many names as were asked for have been tried, and while bytes are
/// received, they go into the file that was asked for just before.
proof fn lemma_pending(name: Seq<char>, events: Seq<AcceptEvent>)
    ensures
        ({
            let (session, first) = accept_begin(name);
            let asked = seq![first] + session.run(events);
            match (session.after_all(events), asked.last()) {
                (AcceptView::Creating(search), AcceptActionView::CreateFile { name: wanted }) => {
                    &&& search == CreateUniqueView { name, attempt: (asked.len() - 1) as nat }
                    &&& wanted == unique_name::candidate(name, search.attempt)
                    &&& search.attempt < MAX_ATTEMPTS
                },
                (AcceptView::Transferring(chosen), AcceptActionView::Transfer) => {
                    &&& asked.len() >= 2
                    &&& asked[asked.len() - 2] == (AcceptActionView::CreateFile { name: chosen })
                },
                (AcceptView::Finished, AcceptActionView::Finish(_)) => true,
                _ => false,
            }
        }),
    decreases events.len(),
{
    let (session, first) = accept_begin(name);
    if events.len() > 0 {
        let before = events.drop_last();
        lemma_pending(name, before);
        assert(before.push(events.last()) =~= events);
        lemma_one_more(session, before, events.last());
    }
}

/// What a session answers, in every run, by what it asked for before and what it is
/// told then. It begins with the offered name itself. Where a file is there already,
/// the next numbered name is tried, a thousand names in all; any other error ends the
/// session with that very error. Once a file is created the bytes are received. That
/// they arrived, and nothing else, is answered with the name of the file that was
/// created last; that they did not is answered with that very error, whatever the
/// file is called. Nothing else has an answer.
pub proof fn saving_answers_what_it_is_told(
    name: Seq<char>,
    events: Seq<AcceptEvent>,
    event: AcceptEvent,
)
    ensures
        ({
            let (session, first) = accept_begin(name);
            let asked = seq![first] + session.run(events);
            let then_asked = seq![first] + session.run(events.push(event));
            &&& first == AcceptActionView::CreateFile { name }
            &&& match (asked.last(), event) {
                (
                    AcceptActionView::CreateFile { .. },
                    AcceptEvent::CreateFile(OpenOutcome::Opened),
                ) => then_asked == asked.push(AcceptActionView::Transfer),
                (
                    AcceptActionView::CreateFile { .. },
                    AcceptEvent::CreateFile(OpenOutcome::Failed { kind, error }),
                ) => {
                    if kind != IoErrorKind::AlreadyExists {
                        then_asked == asked.push(
                            AcceptActionView::Finish(
                                Err(ErrorView::Io(IoFailureView::System(error))),
                            ),
                        )
                    } else if asked.len() < 1000 {
                        then_asked == asked.push(
                            AcceptActionView::CreateFile {
                                name: unique_name::candidate(name, asked.len()),
                            },
                        )
                    } else {
                        then_asked == asked.push(
                            AcceptActionView::Finish(
                                Err(
                                    ErrorView::Io(
                                        IoFailureView::Raised {
                                            kind: IoErrorKind::AlreadyExists,
                                            message: "could not find a free file name"@,
                                        },
                                    ),
                                ),
                            ),
                        )
                    }
                },
                (AcceptActionView::Transfer, AcceptEvent::Transferred) => {
                    &&& asked.len() >= 2
                    &&& asked[asked.len() - 2] matches AcceptActionView::CreateFile { name: saved }
                    &&& then_asked == asked.push(AcceptActionView::Finish(Ok(saved)))
                },
                (AcceptActionView::Transfer, AcceptEvent::TransferFailed(e)) => {
                    then_asked == asked.push(AcceptActionView::Finish(Err(ErrorView::Transfer(e))))
                },
                _ => then_asked == asked,
            }
        }),
{
    let (session, first) = accept_begin(name);
    let asked = seq![first] + session.run(events);
    lemma_pending(name, events);
    lemma_one_more(session, events, event);
    if let Some(action) = session.after_all(events).after(event).1 {
        assert(seq![first] + session.run(events).push(action) =~= asked.push(action));
    }
}

/// The event that a file which is returned goes back to.
proof fn lemma_arrival_was_told(session: AcceptView, events: Seq<AcceptEvent>, i: int) -> (k: int)
    requires
        0 <= i < session.run(events).len(),
        session.run(events)[i] matches AcceptActionView::Finish(Ok(_)),
    ensures
        0 <= k < events.len(),
        events[k] == AcceptEvent::Transferred,
        session.run(events.take(k)).len() == i,
    decreases events.len(),
{
    reveal_with_fuel(AcceptView::run, 2);
    let (next, wanted) = session.after(events[0]);
    let rest = next.run(events.skip(1));
    if wanted is Some {
        assert(session.run(events) == seq![wanted->0] + rest);
        if i > 0 {
            let k = lemma_arrival_was_told(next, events.skip(1), i - 1);
            assert(events.take(k + 1).skip(1) =~= events.skip(1).take(k));
            k + 1
        } else {
            assert(events.take(0).len() == 0);
            0
        }
    } else {
        let k = lemma_arrival_was_told(next, events.skip(1), i);
        assert(events.take(k + 1).skip(1) =~= events.skip(1).take(k));
        k + 1
    }
}

/// In every run, a file is returned only in answer to the news that its bytes
/// arrived: the events up to that news led to what was asked for before, and to
/// nothing more.
pub proof fn files_are_returned_only_when_they_arrived(
    name: Seq<char>,
    events: Seq<AcceptEvent>,
    i: int,
)
    requires
        0 <= i < accept_begin(name).0.run(events).len(),
    ensures
        accept_begin(name).0.run(events)[i] matches AcceptActionView::Finish(Ok(_)) ==> exists|
            k: int,
        |
            0 <= k < events.len() && #[trigger] events[k] == AcceptEvent::Transferred
                && accept_begin(name).0.run(events.take(k)).len() == i,
{
    let session = accept_begin(name).0;
    if let AcceptActionView::Finish(Ok(_)) = session.run(events)[i] {
        let k = lemma_arrival_was_told(session, events, i);
        assert(events[k] == AcceptEvent::Transferred);
    }
}

#[derive(Debug)]
enum AcceptState {
    Creating(CreateUnique),
    Transferring(String),
    Finished,
}

/// A session that saves a file.
#[derive(Debug)]
pub struct AcceptSession {
    state: AcceptState,
}

impl View for AcceptSession {
    type V = AcceptView;

    closed spec fn view(&self) -> AcceptView {
        match self.state {
            AcceptState::Creating(search) => AcceptView::Creating(search@),
            AcceptState::Transferring(name) => AcceptView::Transferring(name@),
            AcceptState::Finished => AcceptView::Finished,
        }
    }
}

/// The model of an optional action.
pub open spec fn wanted_view(wanted: Option<AcceptAction>) -> Option<AcceptActionView> {
    match wanted {
        Some(action) => Some(action@),
        None => None,
    }
}

/// Starts to save a file offered as `name`.
pub(crate) fn begin(name: &str) -> (r: (AcceptSession, AcceptAction))
    ensures
        (r.0@, r.1@) == accept_begin(name@),
        r.1 matches AcceptAction::CreateFile { name: first } && first@ == name@,
{
    let search = unique_name::create_unique(name);
    let first = search.wanted();
    (
        AcceptSession { state: AcceptState::Creating(search) },
        AcceptAction::CreateFile { name: first },
    )
}

impl AcceptSession {
    /// Goes on after an event, and says what is to be done next. An event that
    /// does not answer the pending action is ignored.
    pub fn after(self, event: AcceptEvent) -> (r: (AcceptSession, Option<AcceptAction>))
        ensures
            (r.0@, wanted_view(r.1)) == self@.after(event),
            match (self@, event) {
                (AcceptView::Creating(search), AcceptEvent::CreateFile(OpenOutcome::Opened)) => {
                    &&& r.0@ == AcceptView::Transferring(
                        unique_name::candidate(search.name, search.attempt),
                    )
                    &&& r.1 matches Some(AcceptAction::Transfer)
                },
                (
                    AcceptView::Creating(search),
                    AcceptEvent::CreateFile(OpenOutcome::Failed { kind, error }),
                ) => if kind != IoErrorKind::AlreadyExists {
                    &&& r.0@ is Finished
                    &&& r.1 == Some(AcceptAction::Finish(Err(Error::Io(IoFailure::System(error)))))
                } else if search.attempt < 999 {
                    &&& r.0@ == AcceptView::Creating(
                        CreateUniqueView { name: search.name, attempt: search.attempt + 1 },
                    )
                    &&& r.1 matches Some(AcceptAction::CreateFile { name })
                    &&& name@ == unique_name::candidate(search.name, search.attempt + 1)
                } else {
                    &&& r.0@ is Finished
                    &&& r.1 matches Some(
                        AcceptAction::Finish(Err(Error::Io(IoFailure::Raised { kind, message }))),
                    )
                    &&& kind == IoErrorKind::AlreadyExists
                    &&& message@ == "could not find a free file name"@
                },
                (AcceptView::Transferring(name), AcceptEvent::Transferred) => {
                    &&& r.0@ is Finished
                    &&& r.1 matches Some(AcceptAction::Finish(Ok(saved)))
                    &&& saved@ == name
                },
                (AcceptView::Transferring(_), AcceptEvent::TransferFailed(e)) => {
                    &&& r.0@ is Finished
                    &&& r.1 == Some(AcceptAction::Finish(Err(Error::Transfer(e))))
                },
                (state, _) => r.0@ == state && r.1 is None,
            },
    {
        match (self.state, event) {
            (AcceptState::Creating(search), AcceptEvent::CreateFile(outcome)) => {
                match search.after(outcome) {
                    UniqueStep::Chosen(name) => (
                        AcceptSession { state: AcceptState::Transferring(name) },
                        Some(AcceptAction::Transfer),
                    ),
                    UniqueStep::TryNext(next) => {
                        let name = next.wanted();
                        (
                            AcceptSession { state: AcceptState::Creating(next) },
                            Some(AcceptAction::CreateFile { name }),
                        )
                    },
                    UniqueStep::Failed(e) => (
                        AcceptSession { state: AcceptState::Finished },
                        Some(AcceptAction::Finish(Err(e))),
                    ),
                }
            },
            (AcceptState::Transferring(name), AcceptEvent::Transferred) => (
                AcceptSession { state: AcceptState::Finished },
                Some(AcceptAction::Finish(Ok(name))),
            ),
            (AcceptState::Transferring(_), AcceptEvent::TransferFailed(e)) => (
                AcceptSession { state: AcceptState::Finished },
                Some(AcceptAction::Finish(Err(Error::from(e)))),
            ),
            (state, _) => (AcceptSession { state }, None),
        }
    }
}

} // verus!
