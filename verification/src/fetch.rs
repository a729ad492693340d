//! Collecting a user's whole list, page by page.
//!
//! The pages are fetched by the caller; what to fetch, and what to make of
//! each answer, is decided here. A `UserFetch` starts by wanting the first
//! page, which tells how many pages there are. It then hands out page
//! numbers, never more than `MAX_IN_FLIGHT` ahead of the answers it has been
//! given back, and collects the films of each body as it arrives. A film
//! that the site lists twice is collected once, as it came first. The first
//! failure ends the fetch: no page is handed out after it, and nothing of
//! what was collected is handed over.

use crate::decimal::{decimal_digits, decimal_text};
use crate::error::{Fault, LetterboxdError};
use crate::film::{distinct_ids, ids, lemma_ids_push, Film};
use crate::letterboxd::{outcome, pages_in, reads_body, LetterboxdClient};
use std::collections::HashSet;
use vstd::prelude::*;

verus! {

broadcast use vstd::std_specs::hash::group_hash_axioms;

/// How many pages may be asked for and not yet answered.
pub const MAX_IN_FLIGHT: usize = 5;

/// The status with which the site answers for a profile that does not exist.
pub const NOT_FOUND: u16 = 404;

/// Whether a status says that the request went well.
pub open spec fn is_success(status: u16) -> bool {
    200 <= status < 300
}

/// Where a fetch stands.
#[derive(Clone, Copy, Debug, PartialEq, Eq, Structural)]
pub enum Phase {
    /// The first page has not been answered yet.
    Discovering,
    /// The number of pages is known and some are still missing.
    Collecting,
    /// Every page has arrived.
    Finished,
    /// Something went wrong; the fetch is over.
    Failed,
}

/// A fetch as plain values.
pub struct FetchState {
    pub username: Seq<char>,
    pub phase: Phase,
    /// The number of pages of the profile, once known.
    pub total: nat,
    /// How many pages have been handed out.
    pub issued: nat,
    /// How many bodies have been taken in.
    pub received: nat,
    /// The films collected, in the order of arrival.
    pub films: Seq<Film>,
    /// The ids of the films collected.
    pub seen: Set<u64>,
    /// Why the fetch failed, where the site or a page is to blame; `None`
    /// in a failed fetch means that the transport is.
    pub failure: Option<Fault>,
}

/// The address of one page of a user's list.
pub open spec fn page_url_text(username: Seq<char>, page: nat) -> Seq<char> {
    "https://letterboxd.com/"@ + username + "/films/page/"@ + decimal_digits(page)
}

/// The films of `page` added to `films` one by one, in their order, but for
/// those whose id is in `seen`; with the ids of the films added, added to
/// `seen`.
pub open spec fn collect(films: Seq<Film>, seen: Set<u64>, page: Seq<Film>) -> (
    Seq<Film>,
    Set<u64>,
)
    decreases page.len(),
{
    if page.len() == 0 {
        (films, seen)
    } else {
        let (before, known) = collect(films, seen, page.drop_last());
        if known.contains(page.last().id) {
            (before, known)
        } else {
            (before.push(page.last()), known.insert(page.last().id))
        }
    }
}

impl FetchState {
    /// The state in which every fetch begins.
    pub open spec fn start(username: Seq<char>) -> FetchState {
        FetchState {
            username,
            phase: Phase::Discovering,
            total: 0,
            issued: 0,
            received: 0,
            films: Seq::empty(),
            seen: Set::empty(),
            failure: None,
        }
    }

    /// How many pages have been handed out and not answered.
    pub open spec fn in_flight(self) -> int {
        self.issued - self.received
    }

    /// What holds of every state that a fetch can reach.
    pub open spec fn wf(self) -> bool {
        &&& self.received <= self.issued
        &&& self.in_flight() <= MAX_IN_FLIGHT
        &&& self.seen == ids(self.films)
        &&& distinct_ids(self.films)
        &&& match self.phase {
            Phase::Discovering => self.issued == 0 && self.films.len() == 0
                && self.failure.is_none(),
            Phase::Collecting => self.issued <= self.total && self.received < self.total
                && self.failure.is_none(),
            Phase::Finished => self.received == self.total && self.issued == self.total
                && self.failure.is_none(),
            Phase::Failed => self.films.len() == 0,
        }
    }

    /// The failed state that follows this one.
    pub open spec fn failed(self, failure: Option<Fault>) -> FetchState {
        FetchState {
            phase: Phase::Failed,
            films: Seq::empty(),
            seen: Set::empty(),
            failure,
            ..self
        }
    }

    /// The page to ask for next, if one may be asked for now: pages are
    /// handed out in their order while some are left and fewer than
    /// `MAX_IN_FLIGHT` are unanswered.
    pub open spec fn wanted(self) -> Option<nat> {
        if self.phase == Phase::Collecting && self.issued < self.total && self.in_flight()
            < MAX_IN_FLIGHT {
            Some(self.issued + 1)
        } else {
            None
        }
    }

    /// The state after the wanted page, if there is one, was handed out.
    pub open spec fn after_request(self) -> FetchState {
        if self.wanted().is_some() {
            FetchState { issued: self.issued + 1, ..self }
        } else {
            self
        }
    }

    /// The state after the first page was answered with `status`, where
    /// `pages` is what the page count of its body came to. The not-found
    /// status means that there is no such user; any other status that is no
    /// success is the transport's failure; the body counts only after a
    /// success.
    pub open spec fn after_first_page(
        self,
        status: u16,
        pages: Result<usize, Fault>,
    ) -> FetchState {
        if self.phase != Phase::Discovering {
            self
        } else if status == NOT_FOUND {
            self.failed(Some(Fault::UserNotFound(self.username)))
        } else if !is_success(status) {
            self.failed(None)
        } else {
            match pages {
                Ok(total) => FetchState {
                    phase: if total == 0 {
                        Phase::Finished
                    } else {
                        Phase::Collecting
                    },
                    total: total as nat,
                    ..self
                },
                Err(fault) => self.failed(Some(fault)),
            }
        }
    }

    /// Whether the body of an answer to a page is read: an answer is waited
    /// for, and the status is a success.
    pub open spec fn reads(self, status: u16) -> bool {
        self.phase == Phase::Collecting && self.received < self.issued && is_success(status)
    }

    /// The state after a page that was handed out was answered with
    /// `status`, where `films` is what reading its body came to. An answer
    /// that nobody waits for changes nothing; a status that is no success
    /// is the transport's failure.
    pub open spec fn after_page(self, status: u16, films: Result<Seq<Film>, Fault>) -> FetchState {
        if self.phase != Phase::Collecting || self.received >= self.issued {
            self
        } else if !is_success(status) {
            self.failed(None)
        } else {
            match films {
                Ok(films) => FetchState {
                    phase: if self.received + 1 == self.total {
                        Phase::Finished
                    } else {
                        Phase::Collecting
                    },
                    received: self.received + 1,
                    films: collect(self.films, self.seen, films).0,
                    seen: collect(self.films, self.seen, films).1,
                    ..self
                },
                Err(fault) => self.failed(Some(fault)),
            }
        }
    }

    /// The state after the transport failed on a page. A fetch that is over
    /// stays as it is.
    pub open spec fn after_transport_failure(self) -> FetchState {
        if self.phase == Phase::Finished || self.phase == Phase::Failed {
            self
        } else {
            self.failed(None)
        }
    }
}

/// Collecting a page keeps the films collected in front, adds films of the
/// page only, and leaves no two films with one id.
pub proof fn lemma_collect(films: Seq<Film>, seen: Set<u64>, page: Seq<Film>)
    requires
        seen == ids(films),
        distinct_ids(films),
    ensures
        collect(films, seen, page).1 == ids(collect(films, seen, page).0),
        distinct_ids(collect(films, seen, page).0),
        collect(films, seen, page).0.len() >= films.len(),
        collect(films, seen, page).0.take(films.len() as int) == films,
        ids(collect(films, seen, page).0) == ids(films).union(ids(page)),
    decreases page.len(),
{
    if page.len() == 0 {
        assert(films.take(films.len() as int) =~= films);
        assert(ids(page) =~= Set::<u64>::empty());
        assert(ids(films).union(ids(page)) =~= ids(films));
    } else {
        let shorter = page.drop_last();
        let last = page.last();
        lemma_collect(films, seen, shorter);
        let (before, known) = collect(films, seen, shorter);
        assert(page =~= shorter.push(last));
        lemma_ids_push(shorter, last);
        assert(before.take(films.len() as int) == films);
        if known.contains(last.id) {
            assert(ids(before) =~= ids(films).union(ids(page)));
        } else {
            let longer = before.push(last);
            lemma_ids_push(before, last);
            assert(longer.take(films.len() as int) =~= before.take(films.len() as int));
            assert forall|i: int, j: int| 0 <= i < j < longer.len() implies #[trigger] longer[i].id
                != #[trigger] longer[j].id by {
                if j == before.len() {
                    assert(before[i].id == last.id ==> ids(before).contains(last.id));
                } else {
                    assert(longer[i] == before[i] && longer[j] == before[j]);
                }
            }
            assert(ids(longer) =~= ids(films).union(ids(page)));
        }
    }
}

/// A fetch begins well formed.
pub proof fn lemma_start_is_wf(username: Seq<char>)
    ensures
        FetchState::start(username).wf(),
{
    assert(ids(Seq::<Film>::empty()) =~= Set::<u64>::empty());
}

/// Whatever happens to a well-formed fetch leaves it well formed. So at
/// most `MAX_IN_FLIGHT` pages are ever unanswered, no two films collected
/// share an id, and a fetch is finished only when every page was taken in.
pub proof fn lemma_steps_keep_wf(
    state: FetchState,
    status: u16,
    pages: Result<usize, Fault>,
    films: Result<Seq<Film>, Fault>,
)
    requires
        state.wf(),
    ensures
        state.after_request().wf(),
        state.after_first_page(status, pages).wf(),
        state.after_page(status, films).wf(),
        state.after_transport_failure().wf(),
        state.in_flight() <= MAX_IN_FLIGHT,
        distinct_ids(state.films),
        state.phase == Phase::Finished ==> state.received == state.total,
{
    assert(ids(Seq::<Film>::empty()) =~= Set::<u64>::empty());
    if let Ok(page) = films {
        lemma_collect(state.films, state.seen, page);
    }
}

/// A first page that is answered with the not-found status fails the fetch
/// with the user's name, whatever its body holds, and no page is wanted
/// after it.
pub proof fn lemma_not_found_ends_fetch(state: FetchState, pages: Result<usize, Fault>)
    requires
        state.phase == Phase::Discovering,
    ensures
        state.after_first_page(NOT_FOUND, pages).phase == Phase::Failed,
        state.after_first_page(NOT_FOUND, pages).failure == Some(
            Fault::UserNotFound(state.username),
        ),
        state.after_first_page(NOT_FOUND, pages).wanted().is_none(),
{
}

/// A failed fetch wants no page, and nothing that happens changes it: once
/// a fetch has failed, no page is ever handed out again.
pub proof fn lemma_failed_is_final(
    state: FetchState,
    status: u16,
    pages: Result<usize, Fault>,
    films: Result<Seq<Film>, Fault>,
)
    requires
        state.phase == Phase::Failed,
    ensures
        state.wanted().is_none(),
        state.after_request() == state,
        state.after_first_page(status, pages) == state,
        state.after_page(status, films) == state,
        state.after_transport_failure() == state,
{
}

/// What reading a page came to, as plain values.
pub open spec fn page_outcome(films: Result<Vec<Film>, LetterboxdError>) -> Result<
    Seq<Film>,
    Fault,
> {
    match films {
        Ok(films) => Ok(films@),
        Err(error) => Err(error@),
    }
}

/// The failure of a fetch as plain values.
pub open spec fn failure_view(failure: Option<LetterboxdError>) -> Option<Fault> {
    match failure {
        Some(error) => Some(error@),
        None => None,
    }
}

/// How a fetch ended, or that it has not.
#[derive(Debug)]
pub enum FetchOutcome {
    /// Pages are still missing.
    Pending,
    /// The user's whole list.
    Films(Vec<Film>),
    /// The site or one of its pages is to blame.
    Failed(LetterboxdError),
    /// The transport failed.
    Aborted,
}

/// The fetch of one user's list.
pub struct UserFetch {
    username: String,
    phase: Phase,
    total: usize,
    issued: usize,
    received: usize,
    films: Vec<Film>,
    seen: HashSet<u64>,
    failure: Option<LetterboxdError>,
}

impl View for UserFetch {
    type V = FetchState;

    closed spec fn view(&self) -> FetchState {
        FetchState {
            username: self.username@,
            phase: self.phase,
            total: self.total as nat,
            issued: self.issued as nat,
            received: self.received as nat,
            films: self.films@,
            seen: self.seen@,
            failure: failure_view(self.failure),
        }
    }
}

/// Whether the body of an answer with this status is worth reading.
pub fn wants_body(status: u16) -> (wanted: bool)
    ensures
        wanted == is_success(status),
{
    200 <= status && status < 300
}

/// Writes the address of one page of a user's list.
pub fn page_url(username: &str, page: usize) -> (url: String)
    ensures
        url@ == page_url_text(username@, page as nat),
{
    let number = decimal_text(page);
    String::from_str("https://letterboxd.com/").concat(username).concat("/films/page/").concat(
        number.as_str(),
    )
}

/// Adds the films of a page, in their order, to those collected, but for
/// the films whose id was collected already.
fn collect_into(films: &mut Vec<Film>, seen: &mut HashSet<u64>, page: Vec<Film>)
    ensures
        (final(films)@, final(seen)@) == collect(old(films)@, old(seen)@, page@),
{
    let ghost all = page@;
    let ghost had = films@;
    let ghost knew = seen@;
    proof {
        assert(all.take(0) =~= Seq::<Film>::empty());
    }
    for film in it: page
        invariant
            it.seq() == all,
            (films@, seen@) == collect(had, knew, all.take(it.index())),
    {
        proof {
            assert(all.take(it.index() + 1).drop_last() =~= all.take(it.index()));
        }
        if seen.insert(film.id) {
            films.push(film);
        }
    }
    proof {
        assert(all.take(all.len() as int) =~= all);
    }
}

impl LetterboxdClient {
    /// Begins the fetch of a user's whole list. The caller sends the
    /// requests that the fetch asks for and hands it the answers, with this
    /// client to read them.
    pub fn get_movies_of_user(&self, username: &str) -> (fetch: UserFetch)
        ensures
            fetch@ == FetchState::start(username@),
    {
        UserFetch::new(username)
    }
}

impl UserFetch {
    /// Begins the fetch of `username`'s list.
    pub fn new(username: &str) -> (fetch: UserFetch)
        ensures
            fetch@ == FetchState::start(username@),
    {
        UserFetch {
            username: String::from_str(username),
            phase: Phase::Discovering,
            total: 0,
            issued: 0,
            received: 0,
            films: Vec::new(),
            seen: HashSet::new(),
            failure: None,
        }
    }

    /// Where the fetch stands.
    pub fn phase(&self) -> (phase: Phase)
        ensures
            phase == self@.phase,
    {
        self.phase
    }

    /// The address of the first page, which every fetch begins with.
    pub fn first_url(&self) -> (url: String)
        ensures
            url@ == page_url_text(self@.username, 1),
    {
        page_url(self.username.as_str(), 1)
    }

    /// Ends the fetch with a failure and drops what was collected.
    fn fail(&mut self, failure: Option<LetterboxdError>)
        ensures
            final(self)@ == old(self)@.failed(failure_view(failure)),
    {
        self.phase = Phase::Failed;
        self.films = Vec::new();
        self.seen = HashSet::new();
        self.failure = failure;
    }

    /// Takes in the answer to the first page: its status and the page count
    /// that its body came to.
    pub fn record_first_page(&mut self, status: u16, pages: Result<usize, LetterboxdError>)
        ensures
            final(self)@ == old(self)@.after_first_page(status, outcome(pages)),
    {
        if self.phase != Phase::Discovering {
            return ;
        }
        if status == NOT_FOUND {
            let user = String::from_str(self.username.as_str());
            self.fail(Some(LetterboxdError::UserNotFound(user)));
            return ;
        }
        if !wants_body(status) {
            self.fail(None);
            return ;
        }
        match pages {
            Ok(total) => {
                self.total = total;
                self.phase = if total == 0 {
                    Phase::Finished
                } else {
                    Phase::Collecting
                };
            },
            Err(error) => {
                self.fail(Some(error));
            },
        }
    }

    /// Takes in the answer to the first page: its status and its body. What
    /// is taken in is the page count of the pagination control of the parsed
    /// body, or that the body is too long to be parsed; the body is looked
    /// at only after a success.
    pub fn on_first_page(&mut self, client: &LetterboxdClient, status: u16, body: &str)
        ensures
            final(self)@ == old(self)@.after_first_page(status, pages_in(body@)),
    {
        if self.phase != Phase::Discovering || !wants_body(status) {
            self.record_first_page(status, Ok(1));
            return ;
        }
        let pages = client.pages_from_body(body);
        self.record_first_page(status, pages);
    }

    /// Hands out the next page to fetch, if one may be fetched now.
    pub fn next_page(&mut self) -> (page: Option<usize>)
        ensures
            match page {
                Some(page) => old(self)@.wanted() == Some(page as nat),
                None => old(self)@.wanted().is_none(),
            },
            final(self)@ == old(self)@.after_request(),
    {
        if self.phase == Phase::Collecting && self.issued < self.total && (self.issued
            <= self.received || self.issued - self.received < MAX_IN_FLIGHT) {
            self.issued = self.issued + 1;
            Some(self.issued)
        } else {
            None
        }
    }

    /// The address of a page of this user's list.
    pub fn url_of(&self, page: usize) -> (url: String)
        ensures
            url@ == page_url_text(self@.username, page as nat),
    {
        page_url(self.username.as_str(), page)
    }

    /// Whether an answer to a page is waited for.
    fn awaits_page(&self) -> (waiting: bool)
        ensures
            waiting == (self@.phase == Phase::Collecting && self@.received < self@.issued),
    {
        self.phase == Phase::Collecting && self.received < self.issued
    }

    /// Takes in the answer to a page: its status and what reading its body
    /// came to.
    pub fn record_page(&mut self, status: u16, films: Result<Vec<Film>, LetterboxdError>)
        ensures
            final(self)@ == old(self)@.after_page(status, page_outcome(films)),
    {
        if !self.awaits_page() {
            return ;
        }
        if !wants_body(status) {
            self.fail(None);
            return ;
        }
        match films {
            Ok(films) => {
                collect_into(&mut self.films, &mut self.seen, films);
                self.received = self.received + 1;
                if self.received == self.total {
                    self.phase = Phase::Finished;
                }
            },
            Err(error) => {
                self.fail(Some(error));
            },
        }
    }

    /// Takes in the answer to a page that was handed out: its status and its
    /// body. The body is looked at only where an answer is waited for and
    /// the status is a success; what is then taken in is what
    /// `films_from_items` makes of the list items of the parsed body, or
    /// that the body is too long to be parsed.
    pub fn on_page(&mut self, client: &LetterboxdClient, status: u16, body: &str)
        ensures
            exists|made: Result<Vec<Film>, LetterboxdError>|
                #![trigger page_outcome(made)]
                {
                    &&& final(self)@ == old(self)@.after_page(status, page_outcome(made))
                    &&& old(self)@.reads(status) ==> reads_body(made, body@)
                },
    {
        if !self.awaits_page() || !wants_body(status) {
            let unread: Result<Vec<Film>, LetterboxdError> = Ok(Vec::new());
            let ghost made = unread;
            self.record_page(status, unread);
            assert(self@ == old(self)@.after_page(status, page_outcome(made)));
            return ;
        }
        let films = client.get_movies_from_page(body);
        let ghost made = films;
        self.record_page(status, films);
        assert(self@ == old(self)@.after_page(status, page_outcome(made)));
    }

    /// Takes in that the transport failed on a page.
    pub fn on_transport_failure(&mut self)
        ensures
            final(self)@ == old(self)@.after_transport_failure(),
    {
        if self.phase == Phase::Finished || self.phase == Phase::Failed {
            return ;
        }
        self.fail(None);
    }

    /// Ends the fetch and hands over what it came to.
    pub fn into_outcome(self) -> (ended: FetchOutcome)
        ensures
            match ended {
                FetchOutcome::Pending => self@.phase == Phase::Discovering || self@.phase
                    == Phase::Collecting,
                FetchOutcome::Films(films) => self@.phase == Phase::Finished && films@
                    == self@.films,
                FetchOutcome::Failed(error) => self@.phase == Phase::Failed && self@.failure
                    == Some(error@),
                FetchOutcome::Aborted => self@.phase == Phase::Failed && self@.failure.is_none(),
            },
    {
        match self.phase {
            Phase::Discovering => FetchOutcome::Pending,
            Phase::Collecting => FetchOutcome::Pending,
            Phase::Finished => FetchOutcome::Films(self.films),
            Phase::Failed => match self.failure {
                Some(error) => FetchOutcome::Failed(error),
                None => FetchOutcome::Aborted,
            },
        }
    }
}

} // verus!
