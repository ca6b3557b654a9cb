//! The crawl engine: one job as a state machine. The caller performs what a
//! step asks for (a fetch, reading the next link of a page, sending an event)
//! and hands back what came of it as the next event.

use std::collections::VecDeque;
use vstd::prelude::*;
use crate::interlinker::message::{Outbound, ResponseMessage};
use crate::interlinker::utils::{domain_of, extract_domain, is_valid_url};
use crate::text::{contains, contains_text, same_text, starts_with};

verus! {

/// The `user-agent` header that every fetch of a job carries.
pub const USER_AGENT: &'static str =
    "Mozilla/5.0 (Windows NT 6.1) AppleWebKit/537.2 (KHTML, like Gecko) Chrome/22.0.1216.0 Safari/537.2";

/// After how many seconds a fetch is given up as failed.
pub const FETCH_TIMEOUT_SECONDS: u64 = 5;

/// Whether a job is still at work.
#[derive(Clone, Copy, PartialEq, Eq, Structural, Debug)]
pub enum State {
    Running,
    Finished,
}

/// Where a job stands between two steps.
#[derive(Clone, Copy, PartialEq, Eq, Structural, Debug)]
pub enum Stage {
    /// Created, nothing asked for yet.
    Idle,
    /// A fetch of the current page was asked for.
    Fetching,
    /// The current page is HTML and its links are being read.
    Scanning,
    /// The job is over.
    Finished,
}

/// What the caller reports to a job.
#[derive(Debug, Clone, PartialEq, Eq)]
pub enum Event {
    /// The job may begin.
    Start,
    /// The fetch that was asked for timed out or failed in transport.
    FetchFailed,
    /// The fetch that was asked for was answered, with this `content-type`.
    Response { content_type: Option<String> },
    /// The page being read holds an anchor with this `href`.
    Link { href: String },
    /// The page being read holds no further anchor.
    PageEnd,
    /// An outbound event could not be delivered.
    DeliveryFailed,
}

/// What a job asks its caller to do next.
#[derive(Debug, Clone, PartialEq, Eq)]
pub enum Action {
    /// Fetch `url` with the header `USER_AGENT`, giving up after
    /// `FETCH_TIMEOUT_SECONDS`; then report `FetchFailed` or `Response`.
    Fetch { url: String },
    /// Read on in the current page, then report `Link` or `PageEnd`.
    Scan,
    /// Send the result event, then read on in the current page.
    Announce { message: ResponseMessage },
    /// Send the finish event, then strike the origin from the active origins.
    Finish { message: ResponseMessage },
    /// Nothing: the event does not concern the job as it stands.
    Nothing,
}

/// An event as a value of plain sequences.
pub enum EventView {
    Start,
    FetchFailed,
    Response { content_type: Option<Seq<char>> },
    Link { href: Seq<char> },
    PageEnd,
    DeliveryFailed,
}

/// An action as a value of plain sequences.
pub enum ActionView {
    Fetch { url: Seq<char> },
    Scan,
    Announce { message: Outbound },
    Finish { message: Outbound },
    Nothing,
}

impl View for Event {
    type V = EventView;

    open spec fn view(&self) -> EventView {
        match self {
            Event::Start => EventView::Start,
            Event::FetchFailed => EventView::FetchFailed,
            Event::Response { content_type } => EventView::Response {
                content_type: content_type.deep_view(),
            },
            Event::Link { href } => EventView::Link { href: href@ },
            Event::PageEnd => EventView::PageEnd,
            Event::DeliveryFailed => EventView::DeliveryFailed,
        }
    }
}

impl View for Action {
    type V = ActionView;

    open spec fn view(&self) -> ActionView {
        match self {
            Action::Fetch { url } => ActionView::Fetch { url: url@ },
            Action::Scan => ActionView::Scan,
            Action::Announce { message } => ActionView::Announce { message: message@ },
            Action::Finish { message } => ActionView::Finish { message: message@ },
            Action::Nothing => ActionView::Nothing,
        }
    }
}

/// A response is HTML where it has a content type that holds `text/html`.
pub open spec fn is_html(content_type: Option<Seq<char>>) -> bool {
    match content_type {
        Some(value) => contains(value, "text/html"@),
        None => false,
    }
}

/// The link filter: a candidate passes where it begins with `http`.
pub open spec fn accepted(href: Seq<char>) -> bool {
    "http"@.is_prefix_of(href)
}

/// A URL is fetched where it has a domain and that domain is not yet visited.
pub open spec fn fetchable(visited: Set<Seq<char>>, url: Seq<char>) -> bool {
    match domain_of(url) {
        Some(domain) => !visited.contains(domain),
        None => false,
    }
}

/// How many URLs at the front of the work-list are dropped before one is
/// fetched: those without a domain, and those whose domain is visited.
pub open spec fn dropped(pending: Seq<Seq<char>>, visited: Set<Seq<char>>) -> nat
    decreases pending.len(),
{
    if pending.len() == 0 || fetchable(visited, pending[0]) {
        0
    } else {
        1 + dropped(pending.drop_first(), visited)
    }
}

/// The domains that a list of them holds.
pub open spec fn domain_set(domains: Seq<Seq<char>>) -> Set<Seq<char>> {
    Set::new(|domain: Seq<char>| domains.contains(domain))
}

/// A job as a value of plain sequences and sets.
pub struct JobView {
    /// The starting URL, by which the job is cancelled.
    pub origin: Seq<char>,
    /// The work-list: the URLs still to visit, first in, first out.
    pub pending: Seq<Seq<char>>,
    /// The domains that are not fetched again.
    pub visited: Set<Seq<char>>,
    pub stage: Stage,
    /// The URL and the domain of the current page, while there is one.
    pub page: Option<(Seq<char>, Seq<char>)>,
}

impl JobView {
    /// The job as it is created: at rest, with the origin as its only work.
    pub open spec fn fresh(origin: Seq<char>) -> JobView {
        JobView {
            origin,
            pending: seq![origin],
            visited: Set::empty(),
            stage: Stage::Idle,
            page: None,
        }
    }

    /// The job once it is over, and the finish event that says so.
    pub open spec fn finish(self) -> (JobView, ActionView) {
        (
            JobView { stage: Stage::Finished, page: None, ..self },
            ActionView::Finish { message: Outbound::Finish { origin: self.origin } },
        )
    }

    /// Takes up the next page: drops what is not fetched from the front of
    /// the work-list, marks the domain of the first URL that is, and asks for
    /// its fetch. With nothing left to fetch the job finishes.
    pub open spec fn advance(self) -> (JobView, ActionView) {
        let k = dropped(self.pending, self.visited) as int;
        if k >= self.pending.len() {
            JobView { pending: Seq::empty(), ..self }.finish()
        } else {
            let url = self.pending[k];
            let domain = domain_of(url)->0;
            (
                JobView {
                    pending: self.pending.skip(k + 1),
                    visited: self.visited.insert(domain),
                    stage: Stage::Fetching,
                    page: Some((url, domain)),
                    ..self
                },
                ActionView::Fetch { url },
            )
        }
    }

    /// Ends the current page: a job whose origin is no longer listed
    /// finishes at once, any other takes up its next page.
    pub open spec fn conclude(self, listed: bool) -> (JobView, ActionView) {
        if listed {
            self.advance()
        } else {
            self.finish()
        }
    }

    /// Weighs one link of the current page: a candidate that passes the
    /// filter, has a domain, and whose domain is not visited joins the
    /// work-list and is announced; any other is passed over.
    pub open spec fn offer(self, href: Seq<char>) -> (JobView, ActionView) {
        match (self.page, domain_of(href)) {
            (Some((url, domain)), Some(linked)) if accepted(href) && !self.visited.contains(linked) => (
                JobView { pending: self.pending.push(href), ..self },
                ActionView::Announce {
                    message: Outbound::Result {
                        for_url: url,
                        for_domain: domain,
                        linked_url: href,
                        linked_domain: linked,
                    },
                },
            ),
            _ => (self, ActionView::Scan),
        }
    }

    /// The transition of a job: its next state and what it asks for, given
    /// an event and whether its origin is still among the active origins.
    pub open spec fn next(self, event: EventView, listed: bool) -> (JobView, ActionView) {
        match (self.stage, event) {
            (Stage::Idle, EventView::Start) => self.advance(),
            (Stage::Fetching, EventView::FetchFailed) => self.conclude(listed),
            (Stage::Fetching, EventView::Response { content_type }) => {
                if is_html(content_type) {
                    (JobView { stage: Stage::Scanning, ..self }, ActionView::Scan)
                } else {
                    self.conclude(listed)
                }
            },
            (Stage::Scanning, EventView::Link { href }) => self.offer(href),
            (Stage::Scanning, EventView::PageEnd) => self.conclude(listed),
            (Stage::Finished, _) => (self, ActionView::Nothing),
            (_, EventView::DeliveryFailed) => (
                JobView { stage: Stage::Finished, page: None, ..self },
                ActionView::Nothing,
            ),
            _ => (self, ActionView::Nothing),
        }
    }
}

/// Dropping a URL that is not fetched from the front of the work-list does
/// not change what the job takes up next.
proof fn lemma_advance_skips(job: JobView)
    requires
        job.pending.len() > 0,
        !fetchable(job.visited, job.pending[0]),
    ensures
        job.advance() == (JobView { pending: job.pending.drop_first(), ..job }).advance(),
{
    let rest = job.pending.drop_first();
    let k = dropped(rest, job.visited) as int;
    lemma_dropped_bound(rest, job.visited);
    assert(dropped(job.pending, job.visited) == k + 1);
    if k < rest.len() {
        assert(job.pending[k + 1] == rest[k]);
        assert(job.pending.skip(k + 2) =~= rest.skip(k + 1));
    }
}

/// No more URLs are dropped than the work-list holds, and the one after
/// them, if there is one, is fetched.
pub proof fn lemma_dropped_bound(pending: Seq<Seq<char>>, visited: Set<Seq<char>>)
    ensures
        dropped(pending, visited) <= pending.len(),
        dropped(pending, visited) < pending.len() ==> fetchable(
            visited,
            pending[dropped(pending, visited) as int],
        ),
        forall|i: int| 0 <= i < dropped(pending, visited) ==> !fetchable(visited, #[trigger] pending[i]),
    decreases pending.len(),
{
    if pending.len() == 0 || fetchable(visited, pending[0]) {
    } else {
        let rest = pending.drop_first();
        lemma_dropped_bound(rest, visited);
        let k = dropped(rest, visited) as int;
        if k < rest.len() {
            assert(pending[k + 1] == rest[k]);
        }
        assert forall|i: int| 0 <= i < k + 1 implies !fetchable(visited, #[trigger] pending[i]) by {
            if i > 0 {
                assert(pending[i] == rest[i - 1]);
            }
        }
    }
}

/// Whether a response with this `content-type` header is HTML.
pub fn html(content_type: &Option<String>) -> (yes: bool)
    ensures
        yes == is_html(content_type.deep_view()),
{
    match content_type {
        Some(value) => contains_text(value.as_str(), "text/html"),
        None => false,
    }
}

/// The link filter: whether a candidate `href` is taken further.
pub fn accepts(href: &str) -> (yes: bool)
    ensures
        yes == accepted(href@),
{
    starts_with(href, "http") && is_valid_url(href)
}

/// Whether `domain` is among `visited`.
fn is_visited(visited: &Vec<String>, domain: &str) -> (found: bool)
    ensures
        found == domain_set(visited.deep_view()).contains(domain@),
{
    let mut i: usize = 0;
    while i < visited.len()
        invariant
            i <= visited.len(),
            forall|j: int| 0 <= j < i ==> visited.deep_view()[j] != domain@,
        decreases visited.len() - i,
    {
        if same_text(visited[i].as_str(), domain) {
            assert(visited.deep_view()[i as int] == domain@);
            return true;
        }
        i += 1;
    }
    false
}

/// One crawl job: its origin, its work-list and the domains it has visited.
pub struct Job {
    origin: String,
    work_list: VecDeque<String>,
    visited: Vec<String>,
    stage: Stage,
    page_url: String,
    page_domain: String,
}

impl View for Job {
    type V = JobView;

    closed spec fn view(&self) -> JobView {
        JobView {
            origin: self.origin@,
            pending: self.work_list.deep_view(),
            visited: domain_set(self.visited.deep_view()),
            stage: self.stage,
            page: match self.stage {
                Stage::Fetching | Stage::Scanning => Some((self.page_url@, self.page_domain@)),
                _ => None,
            },
        }
    }
}

impl Job {
    /// A job on `origin`: at rest, with the origin as its only work and no
    /// domain visited.
    pub fn new(origin: String) -> (job: Job)
        ensures
            job@ == JobView::fresh(origin@),
    {
        let mut work_list: VecDeque<String> = VecDeque::new();
        work_list.push_back(origin.clone());
        let job = Job {
            origin,
            work_list,
            visited: Vec::new(),
            stage: Stage::Idle,
            page_url: String::new(),
            page_domain: String::new(),
        };
        proof {
            assert(job@.pending =~= seq![origin@]);
            assert(job@.visited =~= Set::empty());
        }
        job
    }

    /// The starting URL of the job.
    pub fn origin(&self) -> (origin: &str)
        ensures
            origin@ == self@.origin,
    {
        self.origin.as_str()
    }

    /// Whether the job is still at work.
    pub fn state(&self) -> (state: State)
        ensures
            state == (if self@.stage == Stage::Finished {
                State::Finished
            } else {
                State::Running
            }),
    {
        match self.stage {
            Stage::Finished => State::Finished,
            _ => State::Running,
        }
    }

    /// Where the job stands.
    pub fn stage(&self) -> (stage: Stage)
        ensures
            stage == self@.stage,
    {
        self.stage
    }

    /// How many URLs wait in the work-list.
    pub fn pending(&self) -> (count: usize)
        ensures
            count == self@.pending.len(),
    {
        self.work_list.len()
    }

    /// Whether `domain` has been marked as visited.
    pub fn has_visited(&self, domain: &str) -> (yes: bool)
        ensures
            yes == self@.visited.contains(domain@),
    {
        is_visited(&self.visited, domain)
    }

    /// The finish event of the job; the job is over from here on.
    fn finish(&mut self) -> (action: Action)
        ensures
            (final(self)@, action@) == old(self)@.finish(),
    {
        self.stage = Stage::Finished;
        Action::Finish { message: ResponseMessage::FinishMessage { origin: self.origin.clone() } }
    }

    /// Takes up the next page of the work-list, or finishes with none left.
    fn advance(&mut self) -> (action: Action)
        ensures
            (final(self)@, action@) == old(self)@.advance(),
    {
        loop
            invariant
                self@.advance() == old(self)@.advance(),
            decreases self.work_list@.len(),
        {
            let ghost before = self@;
            match self.work_list.pop_front() {
                None => {
                    proof {
                        assert(before.pending.len() == 0);
                        assert(self@.pending =~= Seq::empty());
                    }
                    return self.finish();
                },
                Some(url) => {
                    proof {
                        assert(before.pending[0] == url@);
                        assert(self@.pending =~= before.pending.drop_first());
                    }
                    match extract_domain(url.as_str()) {
                        Some(domain) => {
                            if !is_visited(&self.visited, domain.as_str()) {
                                proof {
                                    assert(fetchable(before.visited, before.pending[0]));
                                    assert(before.pending.skip(1) =~= before.pending.drop_first());
                                }
                                let ghost marked = self.visited.deep_view();
                                self.visited.push(domain.clone());
                                self.page_url = url.clone();
                                self.page_domain = domain;
                                self.stage = Stage::Fetching;
                                proof {
                                    let now = self.visited.deep_view();
                                    assert(now =~= marked.push(domain@));
                                    assert forall|d: Seq<char>|
                                        domain_set(now).contains(d) == domain_set(marked).insert(
                                            domain@,
                                        ).contains(d) by {
                                        if marked.contains(d) {
                                            let i = choose|i: int|
                                                0 <= i < marked.len() && marked[i] == d;
                                            assert(now[i] == d);
                                        }
                                        if d == domain@ {
                                            assert(now[marked.len() as int] == d);
                                        }
                                    }
                                    assert(self@.visited =~= before.visited.insert(domain@));
                                }
                                return Action::Fetch { url };
                            }
                            proof {
                                lemma_advance_skips(before);
                            }
                        },
                        None => {
                            proof {
                                lemma_advance_skips(before);
                            }
                        },
                    }
                },
            }
        }
    }

    /// Ends the current page and goes on, or finishes where the origin is no
    /// longer among `active_origins`.
    fn conclude(&mut self, active_origins: &Vec<String>) -> (action: Action)
        ensures
            (final(self)@, action@) == old(self)@.conclude(
                active_origins.deep_view().contains(old(self)@.origin),
            ),
    {
        if is_listed(active_origins, self.origin.as_str()) {
            self.advance()
        } else {
            self.finish()
        }
    }

    /// Weighs one link of the page that is being read.
    fn offer(&mut self, href: String) -> (action: Action)
        requires
            old(self)@.stage == Stage::Scanning,
        ensures
            (final(self)@, action@) == old(self)@.offer(href@),
    {
        if !accepts(href.as_str()) {
            return Action::Scan;
        }
        match extract_domain(href.as_str()) {
            Some(linked) => {
                if is_visited(&self.visited, linked.as_str()) {
                    return Action::Scan;
                }
                let ghost before = self@;
                self.work_list.push_back(href.clone());
                proof {
                    assert(self@.pending =~= before.pending.push(href@));
                }
                Action::Announce {
                    message: ResponseMessage::ResultMessage {
                        for_url: self.page_url.clone(),
                        for_domain: self.page_domain.clone(),
                        linked_url: href,
                        linked_domain: linked,
                    },
                }
            },
            None => Action::Scan,
        }
    }

    /// Takes one event and says what to do next. `active_origins` are the
    /// origins of the jobs that the connection has not stopped; they are
    /// looked at when a page ends, and only then.
    pub fn step(&mut self, event: Event, active_origins: &Vec<String>) -> (action: Action)
        ensures
            (final(self)@, action@) == old(self)@.next(
                event@,
                active_origins.deep_view().contains(old(self)@.origin),
            ),
    {
        match (self.stage, event) {
            (Stage::Idle, Event::Start) => self.advance(),
            (Stage::Fetching, Event::FetchFailed) => self.conclude(active_origins),
            (Stage::Fetching, Event::Response { content_type }) => {
                if html(&content_type) {
                    self.stage = Stage::Scanning;
                    Action::Scan
                } else {
                    self.conclude(active_origins)
                }
            },
            (Stage::Scanning, Event::Link { href }) => self.offer(href),
            (Stage::Scanning, Event::PageEnd) => self.conclude(active_origins),
            (Stage::Finished, _) => Action::Nothing,
            (_, Event::DeliveryFailed) => {
                self.stage = Stage::Finished;
                Action::Nothing
            },
            _ => Action::Nothing,
        }
    }
}

/// Whether `origin` is among `active_origins`.
pub fn is_listed(active_origins: &Vec<String>, origin: &str) -> (listed: bool)
    ensures
        listed == active_origins.deep_view().contains(origin@),
{
    let mut i: usize = 0;
    while i < active_origins.len()
        invariant
            i <= active_origins.len(),
            forall|j: int| 0 <= j < i ==> active_origins.deep_view()[j] != origin@,
        decreases active_origins.len() - i,
    {
        if same_text(active_origins[i].as_str(), origin) {
            assert(active_origins.deep_view()[i as int] == origin@);
            return true;
        }
        i += 1;
    }
    false
}

} // verus!
