//! The search for a name that no file of the destination directory has: `name`
//! itself, then `name (1)`, `name (2)` and so on, the number in front of the
//! extension.

use vstd::prelude::*;

use crate::error;
use crate::error::{Error, ErrorView, IoErrorKind, IoFailure, IoFailureView};
use crate::file_name;
use crate::text;

verus! {

/// How many names are tried before the search is given up.
pub const MAX_ATTEMPTS: u32 = 1000;

/// The part of a file name in front of its extension.
pub open spec fn stem(name: Seq<char>) -> Seq<char> {
    let dot = text::last_index_of(name, '.');
    if dot > 0 {
        name.take(dot)
    } else {
        name
    }
}

/// The extension of a file name, from its last dot on. A name without a dot has
/// none, and neither has one whose only dot stands in front.
pub open spec fn extension(name: Seq<char>) -> Seq<char> {
    let dot = text::last_index_of(name, '.');
    if dot > 0 {
        name.skip(dot)
    } else {
        Seq::empty()
    }
}

/// The name that is tried after `n` others were taken.
pub open spec fn candidate(name: Seq<char>, n: nat) -> Seq<char> {
    if n == 0 {
        name
    } else {
        stem(name) + " ("@ + text::decimal(n) + ")"@ + extension(name)
    }
}

/// `chosen` is free, and all names that are tried before it are taken.
pub open spec fn is_first_free(name: Seq<char>, taken: Set<Seq<char>>, chosen: Seq<char>) -> bool {
    &&& !taken.contains(chosen)
    &&& exists|n: nat|
        n < MAX_ATTEMPTS && chosen == #[trigger] candidate(name, n) && first_are_taken(
            name,
            taken,
            n,
        )
}

/// The first `n` names that are tried are taken.
pub open spec fn first_are_taken(name: Seq<char>, taken: Set<Seq<char>>, n: nat) -> bool {
    forall|k: nat| k < n ==> taken.contains(#[trigger] candidate(name, k))
}

/// A search, as a model: the wanted name, and how many were found taken.
pub struct CreateUniqueView {
    pub name: Seq<char>,
    pub attempt: nat,
}

/// What opening a new file for writing led to.
#[derive(Debug)]
pub enum OpenOutcome {
    /// The file was created and is open.
    Opened,
    /// No file was created.
    Failed { kind: IoErrorKind, error: std::io::Error },
}

/// A step of the search, as a model.
pub enum UniqueStepView {
    Chosen(Seq<char>),
    TryNext(CreateUniqueView),
    Failed(ErrorView),
}

/// The search for `name` before anything was tried.
pub open spec fn search_for(name: Seq<char>) -> CreateUniqueView {
    CreateUniqueView { name, attempt: 0 }
}

impl CreateUniqueView {
    /// The name to be tried next.
    pub open spec fn wanted(self) -> Seq<char> {
        candidate(self.name, self.attempt)
    }

    /// What follows from trying it. A name that is taken leads to the next one,
    /// until there is none; every other error ends the search.
    pub open spec fn after(self, outcome: OpenOutcome) -> UniqueStepView {
        match outcome {
            OpenOutcome::Opened => UniqueStepView::Chosen(self.wanted()),
            OpenOutcome::Failed { kind, error } => if kind != IoErrorKind::AlreadyExists {
                UniqueStepView::Failed(ErrorView::Io(IoFailureView::System(error)))
            } else if self.attempt + 1 < MAX_ATTEMPTS {
                UniqueStepView::TryNext(
                    CreateUniqueView { name: self.name, attempt: self.attempt + 1 },
                )
            } else {
                UniqueStepView::Failed(error::no_free_name())
            },
        }
    }
}

/// Where the search ends in a directory whose files have the names `taken`. The
/// operating system refuses to create a file that is there, with `refusal`.
pub open spec fn settled(
    search: CreateUniqueView,
    taken: Set<Seq<char>>,
    refusal: std::io::Error,
) -> UniqueStepView
    decreases MAX_ATTEMPTS - search.attempt,
{
    let outcome = if taken.contains(search.wanted()) {
        OpenOutcome::Failed { kind: IoErrorKind::AlreadyExists, error: refusal }
    } else {
        OpenOutcome::Opened
    };
    match search.after(outcome) {
        UniqueStepView::TryNext(next) => settled(next, taken, refusal),
        step => step,
    }
}

/// Stem and extension together are the name.
pub proof fn stem_and_extension(name: Seq<char>)
    ensures
        stem(name) + extension(name) == name,
{
    text::lemma_last_index_of(name, '.');
    assert(stem(name) + extension(name) =~= name);
}

/// The last dot splits a name, however long the parts are, as long as something
/// stands in front of it. The number is put between them.
pub proof fn the_last_dot_splits(front: Seq<char>, back: Seq<char>, n: nat)
    requires
        front.len() > 0,
        forall|k: int| 0 <= k < back.len() ==> back[k] != '.',
    ensures
        ({
            let name = front + seq!['.'] + back;
            &&& stem(name) == front
            &&& extension(name) == seq!['.'] + back
            &&& candidate(name, 0) == name
            &&& n > 0 ==> candidate(name, n) == front + " ("@ + text::decimal(n) + ")."@ + back
        }),
{
    let name = front + seq!['.'] + back;
    let dot = front.len() as int;
    assert forall|k: int| dot < k < name.len() implies name[k] != '.' by {
        assert(name[k] == back[k - dot - 1]);
    }
    text::lemma_last_index_of_unique(name, '.', dot);
    assert(stem(name) =~= front);
    assert(extension(name) =~= seq!['.'] + back);
    if n > 0 {
        reveal_strlit(")");
        reveal_strlit(").");
        assert(")."@ =~= ")"@ + seq!['.']);
        assert(candidate(name, n) =~= front + " ("@ + text::decimal(n) + ")."@ + back);
    }
}

/// A name without a dot, or whose only dot stands in front, has no extension: the
/// number is put behind it.
pub proof fn a_name_without_extension_is_kept_whole(name: Seq<char>, n: nat)
    requires
        forall|k: int| 0 < k < name.len() ==> name[k] != '.',
    ensures
        stem(name) == name,
        extension(name).len() == 0,
        candidate(name, 0) == name,
        n > 0 ==> candidate(name, n) == name + " ("@ + text::decimal(n) + ")"@,
{
    text::lemma_last_index_of(name, '.');
    assert(text::last_index_of(name, '.') <= 0);
    if n > 0 {
        assert(candidate(name, n) =~= name + " ("@ + text::decimal(n) + ")"@);
    }
}

/// A search begins with the name itself. While names are taken it goes on to the
/// next number, a thousand names in all; a file that could be opened is the one that
/// was wanted, and any other error is handed on as it is.
pub proof fn a_search_tries_one_name_after_the_other(
    name: Seq<char>,
    n: nat,
    kind: IoErrorKind,
    error: std::io::Error,
)
    requires
        n < 1000,
    ensures
        search_for(name) == (CreateUniqueView { name, attempt: 0 }),
        ({
            let search = CreateUniqueView { name, attempt: n };
            let step = search.after(OpenOutcome::Failed { kind, error });
            &&& search.wanted() == candidate(name, n)
            &&& search.after(OpenOutcome::Opened) == UniqueStepView::Chosen(candidate(name, n))
            &&& kind == IoErrorKind::AlreadyExists && n < 999 ==> step == UniqueStepView::TryNext(
                CreateUniqueView { name, attempt: n + 1 },
            )
            &&& kind == IoErrorKind::AlreadyExists && n == 999 ==> step == UniqueStepView::Failed(
                ErrorView::Io(
                    IoFailureView::Raised {
                        kind: IoErrorKind::AlreadyExists,
                        message: "could not find a free file name"@,
                    },
                ),
            )
            &&& kind != IoErrorKind::AlreadyExists ==> step == UniqueStepView::Failed(
                ErrorView::Io(IoFailureView::System(error)),
            )
        }),
{
}

/// No name is tried twice.
pub proof fn candidates_are_distinct(name: Seq<char>, i: nat, j: nat)
    requires
        candidate(name, i) == candidate(name, j),
    ensures
        i == j,
{
    stem_and_extension(name);
    reveal_strlit(" (");
    reveal_strlit(")");
    if i > 0 && j > 0 {
        let a = candidate(name, i);
        let b = candidate(name, j);
        let front = stem(name).len() + 2;
        let back = extension(name).len() + 1;
        assert(a.subrange(front as int, a.len() - back) =~= text::decimal(i));
        assert(b.subrange(front as int, b.len() - back) =~= text::decimal(j));
        text::decimal_is_injective(i, j);
    }
}

/// A number behind a plain name leaves it plain: every name that is tried stands
/// for an entry of the directory itself.
pub proof fn candidates_are_plain(name: Seq<char>, n: nat)
    requires
        file_name::is_plain(name),
    ensures
        file_name::is_plain(candidate(name, n)),
{
    if n > 0 {
        stem_and_extension(name);
        text::lemma_decimal_shape(n);
        reveal_strlit(" (");
        reveal_strlit(")");
        let c = candidate(name, n);
        let before = stem(name).len() as int;
        let digits = text::decimal(n).len() as int;
        assert forall|k: int| 0 <= k < c.len() implies c[k] != '/' by {
            if k < before {
                assert(c[k] == name[k]);
                assert(name.contains(name[k]));
            } else if before + 2 <= k < before + 2 + digits {
                assert(c[k] == text::decimal(n)[k - before - 2]);
            } else if k >= before + 3 + digits {
                assert(c[k] == name[k - 3 - digits]);
                assert(name.contains(name[k - 3 - digits]));
            }
        }
        assert(c.len() > 2);
    }
}

/// The extension of a name stays the ending of every name that is tried.
pub proof fn candidates_keep_the_extension(name: Seq<char>, n: nat)
    ensures
        candidate(name, n).skip(candidate(name, n).len() - extension(name).len())
            == extension(name),
{
    stem_and_extension(name);
    let c = candidate(name, n);
    assert(c.skip(c.len() - extension(name).len()) =~= extension(name));
}

/// Where a search that has found the first `search.attempt` names taken ends.
proof fn lemma_settled(search: CreateUniqueView, taken: Set<Seq<char>>, refusal: std::io::Error)
    requires
        search.attempt < MAX_ATTEMPTS,
        first_are_taken(search.name, taken, search.attempt),
    ensures
        match settled(search, taken, refusal) {
            UniqueStepView::Chosen(c) => is_first_free(search.name, taken, c),
            UniqueStepView::TryNext(_) => false,
            UniqueStepView::Failed(e) => e == error::no_free_name() && first_are_taken(
                search.name,
                taken,
                MAX_ATTEMPTS as nat,
            ),
        },
    decreases MAX_ATTEMPTS - search.attempt,
{
    if taken.contains(search.wanted()) && search.attempt + 1 < MAX_ATTEMPTS {
        lemma_settled(
            CreateUniqueView { name: search.name, attempt: search.attempt + 1 },
            taken,
            refusal,
        );
    }
}

/// An existing file is never overwritten: the name that is chosen is free, and
/// it is the first free one. The search fails only where all names are taken.
pub proof fn existing_files_are_kept(
    name: Seq<char>,
    taken: Set<Seq<char>>,
    refusal: std::io::Error,
)
    ensures
        match settled(search_for(name), taken, refusal) {
            UniqueStepView::Chosen(c) => is_first_free(name, taken, c),
            UniqueStepView::TryNext(_) => false,
            UniqueStepView::Failed(e) => e == error::no_free_name() && first_are_taken(
                name,
                taken,
                MAX_ATTEMPTS as nat,
            ),
        },
{
    lemma_settled(search_for(name), taken, refusal);
}

/// In a directory with fewer files than there are names to try, the search
/// succeeds.
pub proof fn small_directories_have_room(
    name: Seq<char>,
    taken: Set<Seq<char>>,
    refusal: std::io::Error,
)
    requires
        taken.finite(),
        taken.len() < MAX_ATTEMPTS,
    ensures
        settled(search_for(name), taken, refusal) is Chosen,
{
    existing_files_are_kept(name, taken, refusal);
    if settled(search_for(name), taken, refusal) is Failed {
        let tried = Seq::new(MAX_ATTEMPTS as nat, |k: int| candidate(name, k as nat));
        assert forall|i: int, j: int| 0 <= i < tried.len() && 0 <= j < tried.len() && i
            != j implies tried[i] != tried[j] by {
            if tried[i] == tried[j] {
                candidates_are_distinct(name, i as nat, j as nat);
            }
        }
        tried.unique_seq_to_set();
        assert forall|c: Seq<char>| tried.to_set().contains(c) implies taken.contains(c) by {
            let k = choose|k: int| 0 <= k < tried.len() && tried[k] == c;
            assert(taken.contains(candidate(name, k as nat)));
        }
        vstd::set_lib::lemma_len_subset(tried.to_set(), taken);
    }
}

/// Saving twice under one name gives two files: once the chosen name is taken,
/// the next search chooses another.
pub proof fn second_file_gets_another_name(
    name: Seq<char>,
    taken: Set<Seq<char>>,
    refusal: std::io::Error,
)
    ensures
        settled(search_for(name), taken, refusal) matches UniqueStepView::Chosen(first) ==> (
        settled(search_for(name), taken.insert(first), refusal) matches UniqueStepView::Chosen(
            second,
        ) ==> second != first),
{
    if let UniqueStepView::Chosen(first) = settled(search_for(name), taken, refusal) {
        existing_files_are_kept(name, taken.insert(first), refusal);
    }
}

/// A search for a free name.
#[derive(Debug)]
pub struct CreateUnique {
    name: String,
    attempt: u32,
}

/// What comes after an attempt.
#[derive(Debug)]
pub enum UniqueStep {
    /// The file is open, under this name.
    Chosen(String),
    /// The name was taken: go on with this search.
    TryNext(CreateUnique),
    /// The search is over, and there is no file.
    Failed(Error),
}

impl View for CreateUnique {
    type V = CreateUniqueView;

    closed spec fn view(&self) -> CreateUniqueView {
        CreateUniqueView { name: self.name@, attempt: self.attempt as nat }
    }
}

impl View for UniqueStep {
    type V = UniqueStepView;

    open spec fn view(&self) -> UniqueStepView {
        match *self {
            UniqueStep::Chosen(name) => UniqueStepView::Chosen(name@),
            UniqueStep::TryNext(search) => UniqueStepView::TryNext(search@),
            UniqueStep::Failed(e) => UniqueStepView::Failed(e@),
        }
    }
}

/// Stem and extension of a file name.
pub fn split_name(name: &str) -> (r: (String, String))
    ensures
        r.0@ == stem(name@),
        r.1@ == extension(name@),
{
    let v = text::chars_of(name);
    let mut dot: usize = v.len();
    while dot > 0 && v[dot - 1] != '.'
        invariant
            dot <= v.len(),
            forall|k: int| dot <= k < v.len() ==> v@[k] != '.',
        decreases dot,
    {
        dot = dot - 1;
    }
    proof {
        text::lemma_last_index_of_unique(name@, '.', dot - 1);
    }
    if dot > 1 {
        let s = name.substring_char(0, dot - 1).to_owned();
        let e = name.substring_char(dot - 1, v.len()).to_owned();
        assert(s@ =~= name@.take(dot - 1));
        assert(e@ =~= name@.skip(dot - 1));
        (s, e)
    } else {
        (name.to_owned(), String::new())
    }
}

/// The name that is tried after `n` others were taken.
pub fn candidate_name(name: &str, n: u32) -> (r: String)
    ensures
        r@ == candidate(name@, n as nat),
{
    if n == 0 {
        name.to_owned()
    } else {
        let (stem, ext) = split_name(name);
        let mut out = stem.concat(" (");
        text::append_decimal(&mut out, n as u64);
        out.append(")");
        out.append(ext.as_str());
        out
    }
}

/// Starts the search for a free name like `name`.
pub fn create_unique(name: &str) -> (search: CreateUnique)
    ensures
        search@ == search_for(name@),
        search@.name == name@,
        search@.attempt == 0,
{
    CreateUnique { name: name.to_owned(), attempt: 0 }
}

impl CreateUnique {
    #[verifier::type_invariant]
    spec fn in_bounds(self) -> bool {
        self.attempt < MAX_ATTEMPTS
    }

    /// The name to be tried next: a new file is to be created under it, and
    /// nothing that is there already is to be opened.
    pub fn wanted(&self) -> (name: String)
        ensures
            name@ == self@.wanted(),
            name@ == candidate(self@.name, self@.attempt),
    {
        candidate_name(self.name.as_str(), self.attempt)
    }

    /// Goes on after the wanted name was tried.
    pub fn after(self, outcome: OpenOutcome) -> (step: UniqueStep)
        ensures
            step@ == self@.after(outcome),
            match outcome {
                OpenOutcome::Opened => step matches UniqueStep::Chosen(name) && name@ == candidate(
                    self@.name,
                    self@.attempt,
                ),
                OpenOutcome::Failed { kind, error } => if kind != IoErrorKind::AlreadyExists {
                    step matches UniqueStep::Failed(Error::Io(IoFailure::System(e))) && e == error
                } else if self@.attempt < 999 {
                    step matches UniqueStep::TryNext(next) && next@.name == self@.name
                        && next@.attempt == self@.attempt + 1
                } else {
                    step matches UniqueStep::Failed(
                        Error::Io(IoFailure::Raised { kind: IoErrorKind::AlreadyExists, message }),
                    ) && message@ == "could not find a free file name"@
                },
            },
    {
        proof {
            use_type_invariant(&self);
        }
        match outcome {
            OpenOutcome::Opened => UniqueStep::Chosen(self.wanted()),
            OpenOutcome::Failed { kind, error } => {
                if kind != IoErrorKind::AlreadyExists {
                    UniqueStep::Failed(Error::Io(IoFailure::System(error)))
                } else if self.attempt + 1 < MAX_ATTEMPTS {
                    UniqueStep::TryNext(
                        CreateUnique { attempt: self.attempt + 1, name: self.name },
                    )
                } else {
                    UniqueStep::Failed(error::raise_no_free_name())
                }
            },
        }
    }
}

} // verus!
