//! What holds of every job, whatever its caller reports: stated over runs of
//! the transition function.

use vstd::prelude::*;
use crate::interlinker::client::without;
use crate::interlinker::job::{
    accepted,
    dropped,
    fetchable,
    is_html,
    lemma_dropped_bound,
    ActionView,
    EventView,
    JobView,
    Stage,
};
use crate::interlinker::message::Outbound;
use crate::interlinker::utils::domain_of;

verus! {

/// One report to a job: the event, and whether the job's origin was among
/// the active origins when it came.
pub struct Input {
    pub event: EventView,
    pub listed: bool,
}

/// The job after it has taken `inputs` in order.
pub open spec fn state_after(job: JobView, inputs: Seq<Input>) -> JobView
    decreases inputs.len(),
{
    if inputs.len() == 0 {
        job
    } else {
        state_after(job, inputs.drop_last()).next(inputs.last().event, inputs.last().listed).0
    }
}

/// What the job asks for on the input at position `at`.
pub open spec fn action_at(job: JobView, inputs: Seq<Input>, at: int) -> ActionView {
    state_after(job, inputs.take(at)).next(inputs[at].event, inputs[at].listed).1
}

/// How many finish events the job sends while it takes `inputs`.
pub open spec fn finish_count(job: JobView, inputs: Seq<Input>) -> nat
    decreases inputs.len(),
{
    if inputs.len() == 0 {
        0
    } else {
        let before = finish_count(job, inputs.drop_last());
        if action_at(job, inputs, inputs.len() - 1) is Finish {
            before + 1
        } else {
            before
        }
    }
}

/// A state that runs of a fresh job pass through: the current page, where
/// there is one, carries its own domain, and that domain is marked.
pub open spec fn coherent(job: JobView) -> bool {
    match job.page {
        Some((url, domain)) => {
            &&& job.stage == Stage::Fetching || job.stage == Stage::Scanning
            &&& domain_of(url) == Some(domain)
            &&& job.visited.contains(domain)
        },
        None => job.stage == Stage::Idle || job.stage == Stage::Finished,
    }
}

/// What one step does, case by case of what it asks for.
pub proof fn lemma_step(job: JobView, event: EventView, listed: bool)
    ensures
        ({
            let (after, action) = job.next(event, listed);
            &&& after.origin == job.origin
            &&& job.visited.subset_of(after.visited)
            &&& coherent(job) ==> coherent(after)
            &&& job.stage == Stage::Finished ==> after == job && action is Nothing
            &&& action is Finish ==> after.stage == Stage::Finished && action->Finish_message
                == (Outbound::Finish { origin: job.origin })
            &&& after.stage == Stage::Finished && job.stage != Stage::Finished && !(event
                is DeliveryFailed) ==> action is Finish
            &&& action matches ActionView::Fetch { url } ==> {
                &&& fetchable(job.visited, url)
                &&& after.visited == job.visited.insert(domain_of(url)->0)
                &&& after.page == Some((url, domain_of(url)->0))
                &&& after.stage == Stage::Fetching
                &&& job.pending.contains(url)
            }
            &&& !(action is Fetch) ==> after.visited == job.visited
            &&& action matches ActionView::Announce { message } ==> {
                &&& job.stage == Stage::Scanning
                &&& event == (EventView::Link { href: message->linked_url })
                &&& message is Result
                &&& job.page == Some((message->for_url, message->for_domain))
                &&& accepted(message->linked_url)
                &&& domain_of(message->linked_url) == Some(message->linked_domain)
                &&& !job.visited.contains(message->linked_domain)
                &&& after.pending == job.pending.push(message->linked_url)
                &&& after.stage == Stage::Scanning
            }
            &&& !(action is Announce) ==> forall|i: int|
                0 <= i < after.pending.len() ==> job.pending.contains(#[trigger] after.pending[i])
        }),
{
    let (after, action) = job.next(event, listed);
    lemma_dropped_bound(job.pending, job.visited);
    let k = dropped(job.pending, job.visited) as int;
    if k < job.pending.len() {
        let rest = job.pending.skip(k + 1);
        assert forall|i: int| 0 <= i < rest.len() implies job.pending.contains(
            #[trigger] rest[i],
        ) by {
            assert(job.pending[i + k + 1] == rest[i]);
        }
        assert(job.pending.contains(job.pending[k]));
    }
    if !(action is Announce) {
        assert forall|i: int| 0 <= i < after.pending.len() implies job.pending.contains(
            #[trigger] after.pending[i],
        ) by {
            if after.pending == job.pending {
                assert(job.pending[i] == after.pending[i]);
            }
        }
    }
}

/// Taking one more input is one more step.
pub proof fn lemma_unfold(job: JobView, inputs: Seq<Input>, at: int)
    requires
        0 <= at < inputs.len(),
    ensures
        state_after(job, inputs.take(at + 1)) == state_after(job, inputs.take(at)).next(
            inputs[at].event,
            inputs[at].listed,
        ).0,
{
    assert(inputs.take(at + 1).drop_last() =~= inputs.take(at));
}

/// A job that is over stays over, with all it held.
pub proof fn lemma_finished_stays(job: JobView, inputs: Seq<Input>, from: int, to: int)
    requires
        0 <= from <= to <= inputs.len(),
        state_after(job, inputs.take(from)).stage == Stage::Finished,
    ensures
        state_after(job, inputs.take(to)) == state_after(job, inputs.take(from)),
    decreases to - from,
{
    if from < to {
        lemma_finished_stays(job, inputs, from, to - 1);
        lemma_unfold(job, inputs, to - 1);
        lemma_step(state_after(job, inputs.take(to - 1)), inputs[to - 1].event, inputs[to - 1].listed);
    }
}

/// The finish event is the last event of its job: once it has been sent,
/// the job asks for nothing more, whatever is reported to it.
pub proof fn law_finish_is_last(job: JobView, inputs: Seq<Input>, first: int, later: int)
    requires
        0 <= first < later < inputs.len(),
        action_at(job, inputs, first) is Finish,
    ensures
        action_at(job, inputs, later) is Nothing,
{
    lemma_step(state_after(job, inputs.take(first)), inputs[first].event, inputs[first].listed);
    lemma_unfold(job, inputs, first);
    lemma_finished_stays(job, inputs, first + 1, later);
    lemma_step(state_after(job, inputs.take(later)), inputs[later].event, inputs[later].listed);
}

/// The finish event names the origin of its job.
pub proof fn law_finish_names_origin(origin: Seq<char>, inputs: Seq<Input>, at: int)
    requires
        0 <= at < inputs.len(),
        action_at(JobView::fresh(origin), inputs, at) is Finish,
    ensures
        action_at(JobView::fresh(origin), inputs, at) == (ActionView::Finish {
            message: Outbound::Finish { origin },
        }),
{
    lemma_origin_kept(JobView::fresh(origin), inputs.take(at));
    lemma_step(
        state_after(JobView::fresh(origin), inputs.take(at)),
        inputs[at].event,
        inputs[at].listed,
    );
}

/// A job keeps its origin.
pub proof fn lemma_origin_kept(job: JobView, inputs: Seq<Input>)
    ensures
        state_after(job, inputs).origin == job.origin,
    decreases inputs.len(),
{
    if inputs.len() > 0 {
        lemma_origin_kept(job, inputs.drop_last());
        lemma_step(
            state_after(job, inputs.drop_last()),
            inputs.last().event,
            inputs.last().listed,
        );
    }
}

/// A job sends its finish event at most once; and where every event was
/// delivered, a job is over exactly when it has sent it.
pub proof fn law_one_finish_event(job: JobView, inputs: Seq<Input>)
    requires
        job.stage != Stage::Finished,
    ensures
        finish_count(job, inputs) <= 1,
        finish_count(job, inputs) == 1 ==> state_after(job, inputs).stage == Stage::Finished,
        (forall|k: int| 0 <= k < inputs.len() ==> !(#[trigger] inputs[k].event is DeliveryFailed))
            ==> (state_after(job, inputs).stage == Stage::Finished ==> finish_count(job, inputs)
            == 1),
    decreases inputs.len(),
{
    if inputs.len() > 0 {
        let shorter = inputs.drop_last();
        law_one_finish_event(job, shorter);
        assert(inputs.take(inputs.len() - 1) =~= shorter);
        lemma_step(state_after(job, shorter), inputs.last().event, inputs.last().listed);
        if forall|k: int| 0 <= k < inputs.len() ==> !(#[trigger] inputs[k].event is DeliveryFailed) {
            assert forall|k: int| 0 <= k < shorter.len() implies !(#[trigger] shorter[k].event
                is DeliveryFailed) by {
                assert(shorter[k] == inputs[k]);
            }
            assert(!(inputs[inputs.len() - 1].event is DeliveryFailed));
        }
    }
}

/// The domains that a job has marked stay marked.
pub proof fn lemma_visited_grows(job: JobView, inputs: Seq<Input>, from: int, to: int)
    requires
        0 <= from <= to <= inputs.len(),
    ensures
        state_after(job, inputs.take(from)).visited.subset_of(
            state_after(job, inputs.take(to)).visited,
        ),
    decreases to - from,
{
    if from < to {
        lemma_visited_grows(job, inputs, from, to - 1);
        lemma_unfold(job, inputs, to - 1);
        lemma_step(state_after(job, inputs.take(to - 1)), inputs[to - 1].event, inputs[to - 1].listed);
    }
}

/// Once a domain is marked as visited it is not fetched again: no two
/// fetches of one job go to the same domain, whether or not the first of them
/// succeeded.
pub proof fn law_one_fetch_per_domain(job: JobView, inputs: Seq<Input>, first: int, later: int)
    requires
        0 <= first < later < inputs.len(),
        action_at(job, inputs, first) is Fetch,
        action_at(job, inputs, later) is Fetch,
    ensures
        domain_of(action_at(job, inputs, first)->url) is Some,
        domain_of(action_at(job, inputs, later)->url) is Some,
        domain_of(action_at(job, inputs, first)->url) != domain_of(
            action_at(job, inputs, later)->url,
        ),
{
    lemma_step(state_after(job, inputs.take(first)), inputs[first].event, inputs[first].listed);
    lemma_unfold(job, inputs, first);
    lemma_visited_grows(job, inputs, first + 1, later);
    lemma_step(state_after(job, inputs.take(later)), inputs[later].event, inputs[later].listed);
}

/// A domain that is marked as visited is never announced again, by whatever
/// URL it is reached.
pub proof fn law_visited_is_not_announced(
    job: JobView,
    inputs: Seq<Input>,
    domain: Seq<char>,
    marked: int,
    later: int,
)
    requires
        0 <= marked <= later < inputs.len(),
        state_after(job, inputs.take(marked)).visited.contains(domain),
        action_at(job, inputs, later) is Announce,
    ensures
        action_at(job, inputs, later)->Announce_message->linked_domain != domain,
{
    lemma_visited_grows(job, inputs, marked, later);
    lemma_step(state_after(job, inputs.take(later)), inputs[later].event, inputs[later].listed);
}

/// A domain whose page has been asked for is never announced afterwards.
pub proof fn law_fetched_is_not_announced(job: JobView, inputs: Seq<Input>, first: int, later: int)
    requires
        0 <= first < later < inputs.len(),
        action_at(job, inputs, first) is Fetch,
        action_at(job, inputs, later) is Announce,
    ensures
        Some(action_at(job, inputs, later)->Announce_message->linked_domain) != domain_of(
            action_at(job, inputs, first)->url,
        ),
{
    lemma_step(state_after(job, inputs.take(first)), inputs[first].event, inputs[first].listed);
    lemma_unfold(job, inputs, first);
    law_visited_is_not_announced(
        job,
        inputs,
        domain_of(action_at(job, inputs, first)->url)->0,
        first + 1,
        later,
    );
}

/// Every result event carries the page it was found on and that page's
/// domain, and the link it announces with the link's domain. It is asked for
/// on the very step that reports the link, so the result events of a job go
/// out in the order in which its links are found.
pub proof fn law_announcement_is_derived(origin: Seq<char>, inputs: Seq<Input>, at: int)
    requires
        0 <= at < inputs.len(),
        action_at(JobView::fresh(origin), inputs, at) is Announce,
    ensures
        ({
            let message = action_at(JobView::fresh(origin), inputs, at)->Announce_message;
            &&& message is Result
            &&& domain_of(message->for_url) == Some(message->for_domain)
            &&& domain_of(message->linked_url) == Some(message->linked_domain)
            &&& inputs[at].event == (EventView::Link { href: message->linked_url })
        }),
{
    lemma_coherent(JobView::fresh(origin), inputs.take(at));
    lemma_step(
        state_after(JobView::fresh(origin), inputs.take(at)),
        inputs[at].event,
        inputs[at].listed,
    );
}

/// Runs keep the current page and its domain together.
pub proof fn lemma_coherent(job: JobView, inputs: Seq<Input>)
    requires
        coherent(job),
    ensures
        coherent(state_after(job, inputs)),
    decreases inputs.len(),
{
    if inputs.len() > 0 {
        lemma_coherent(job, inputs.drop_last());
        lemma_step(
            state_after(job, inputs.drop_last()),
            inputs.last().event,
            inputs.last().listed,
        );
    }
}

/// Some URL of the work-list has the domain `domain`.
pub open spec fn queued(job: JobView, domain: Seq<char>) -> bool {
    exists|i: int| 0 <= i < job.pending.len() && domain_of(#[trigger] job.pending[i]) == Some(domain)
}

/// The event is a link that would be announced although a URL of its domain
/// already waits in the work-list.
pub open spec fn links_to_queued(job: JobView, event: EventView) -> bool {
    &&& job.stage == Stage::Scanning
    &&& event is Link
    &&& accepted(event->href)
    &&& domain_of(event->href) is Some
    &&& !job.visited.contains(domain_of(event->href)->0)
    &&& queued(job, domain_of(event->href)->0)
}

/// A domain that waits in the work-list waits on, or is marked as visited.
proof fn lemma_step_keeps_queued(job: JobView, event: EventView, listed: bool, domain: Seq<char>)
    requires
        queued(job, domain) || job.visited.contains(domain),
    ensures
        queued(job.next(event, listed).0, domain) || job.next(event, listed).0.visited.contains(
            domain,
        ),
{
    let (after, action) = job.next(event, listed);
    lemma_step(job, event, listed);
    if !job.visited.contains(domain) {
        let i = choose|i: int|
            0 <= i < job.pending.len() && domain_of(#[trigger] job.pending[i]) == Some(domain);
        lemma_dropped_bound(job.pending, job.visited);
        let k = dropped(job.pending, job.visited) as int;
        assert(fetchable(job.visited, job.pending[i]));
        assert(k <= i);
        if after.pending == job.pending {
            assert(domain_of(after.pending[i]) == Some(domain));
        } else if after.pending == job.pending.push(event->href) {
            assert(domain_of(after.pending[i]) == Some(domain));
        } else {
            assert(after == job.advance().0);
            if i == k {
                assert(after.visited.contains(domain));
            } else {
                assert(after.pending == job.pending.skip(k + 1));
                assert(after.pending[i - k - 1] == job.pending[i]);
                assert(domain_of(after.pending[i - k - 1]) == Some(domain));
            }
        }
    }
}

/// From the step that announces a domain on, the domain waits in the
/// work-list or is marked as visited.
proof fn lemma_announced_waits(job: JobView, inputs: Seq<Input>, first: int, later: int)
    requires
        0 <= first < later <= inputs.len(),
        action_at(job, inputs, first) is Announce,
    ensures
        ({
            let domain = action_at(job, inputs, first)->Announce_message->linked_domain;
            let state = state_after(job, inputs.take(later));
            queued(state, domain) || state.visited.contains(domain)
        }),
    decreases later - first,
{
    let domain = action_at(job, inputs, first)->Announce_message->linked_domain;
    if later == first + 1 {
        let before = state_after(job, inputs.take(first));
        lemma_step(before, inputs[first].event, inputs[first].listed);
        lemma_unfold(job, inputs, first);
        let state = state_after(job, inputs.take(later));
        assert(domain_of(state.pending[before.pending.len() as int]) == Some(domain));
    } else {
        lemma_announced_waits(job, inputs, first, later - 1);
        lemma_unfold(job, inputs, later - 1);
        lemma_step_keeps_queued(
            state_after(job, inputs.take(later - 1)),
            inputs[later - 1].event,
            inputs[later - 1].listed,
            domain,
        );
    }
}

/// No two result events of one job announce the same domain, as long as no
/// page links to a domain that already waits in the work-list unvisited.
pub proof fn law_distinct_announcements(job: JobView, inputs: Seq<Input>, first: int, later: int)
    requires
        0 <= first < later < inputs.len(),
        forall|k: int|
            0 <= k < inputs.len() ==> !links_to_queued(
                #[trigger] state_after(job, inputs.take(k)),
                inputs[k].event,
            ),
        action_at(job, inputs, first) is Announce,
        action_at(job, inputs, later) is Announce,
    ensures
        action_at(job, inputs, first)->Announce_message->linked_domain != action_at(
            job,
            inputs,
            later,
        )->Announce_message->linked_domain,
{
    lemma_announced_waits(job, inputs, first, later);
    let state = state_after(job, inputs.take(later));
    lemma_step(state, inputs[later].event, inputs[later].listed);
    assert(!links_to_queued(state, inputs[later].event));
}

/// The event ends the page that the job is on.
pub open spec fn ends_page(job: JobView, event: EventView) -> bool {
    match (job.stage, event) {
        (Stage::Fetching, EventView::FetchFailed) => true,
        (Stage::Fetching, EventView::Response { content_type }) => !is_html(content_type),
        (Stage::Scanning, EventView::PageEnd) => true,
        _ => false,
    }
}

/// A fetch that times out or fails in transport announces nothing and does
/// not end the job by itself: the domain stays marked, and the job goes on
/// to its next fetch or, with none left, to its finish event.
pub proof fn law_failed_fetch_is_passed_over(job: JobView, listed: bool)
    requires
        job.stage == Stage::Fetching,
    ensures
        ({
            let (after, action) = job.next(EventView::FetchFailed, listed);
            &&& action is Fetch || action is Finish
            &&& listed ==> (after, action) == job.advance()
            &&& job.visited.subset_of(after.visited)
            &&& after.stage != Stage::Scanning
        }),
{
    lemma_step(job, EventView::FetchFailed, listed);
}

/// A response whose content type is missing or does not hold `text/html`
/// yields no links: the page is not read, nothing joins the work-list, and a
/// link reported for it is not taken.
pub proof fn law_other_content_is_not_scanned(
    job: JobView,
    content_type: Option<Seq<char>>,
    listed: bool,
    href: Seq<char>,
    listed_then: bool,
)
    requires
        job.stage == Stage::Fetching,
        !is_html(content_type),
    ensures
        ({
            let (after, action) = job.next(EventView::Response { content_type }, listed);
            &&& action is Fetch || action is Finish
            &&& after.stage != Stage::Scanning
            &&& after.next(EventView::Link { href }, listed_then) == (after, ActionView::Nothing)
            &&& forall|i: int|
                0 <= i < after.pending.len() ==> job.pending.contains(#[trigger] after.pending[i])
        }),
{
    lemma_step(job, EventView::Response { content_type }, listed);
}

/// Striking an origin leaves none of it, and keeps every other origin.
pub proof fn lemma_without(origins: Seq<Seq<char>>, origin: Seq<char>, other: Seq<char>)
    ensures
        !without(origins, origin).contains(origin),
        other != origin ==> without(origins, origin).contains(other) == origins.contains(other),
    decreases origins.len(),
{
    if origins.len() > 0 {
        let shorter = origins.drop_last();
        lemma_without(shorter, origin, other);
        let kept = without(shorter, origin);
        if origins.last() != origin {
            let all = kept.push(origins.last());
            assert forall|i: int| 0 <= i < all.len() implies all[i] != origin by {
                if i < kept.len() {
                    assert(kept.contains(kept[i]));
                }
            }
            if other != origin {
                if all.contains(other) {
                    let i = choose|i: int| 0 <= i < all.len() && all[i] == other;
                    if i < kept.len() {
                        assert(kept.contains(other));
                        let j = choose|j: int| 0 <= j < shorter.len() && shorter[j] == other;
                        assert(origins[j] == other);
                    } else {
                        assert(origins[origins.len() - 1] == other);
                    }
                }
                if origins.contains(other) {
                    let i = choose|i: int| 0 <= i < origins.len() && origins[i] == other;
                    if i < shorter.len() {
                        assert(shorter[i] == other);
                        assert(shorter.contains(other));
                        let j = choose|j: int| 0 <= j < kept.len() && kept[j] == other;
                        assert(all[j] == other);
                    } else {
                        assert(all[kept.len() as int] == other);
                    }
                }
            }
        } else {
            if other != origin {
                if origins.contains(other) {
                    let i = choose|i: int| 0 <= i < origins.len() && origins[i] == other;
                    assert(shorter[i] == other);
                    assert(shorter.contains(other));
                }
                if shorter.contains(other) {
                    let i = choose|i: int| 0 <= i < shorter.len() && shorter[i] == other;
                    assert(origins[i] == other);
                }
            }
        }
    }
}

/// Striking an origin that is not listed changes nothing: stopping a job
/// twice is stopping it once.
pub proof fn law_stop_is_idempotent(origins: Seq<Seq<char>>, origin: Seq<char>)
    ensures
        !origins.contains(origin) ==> without(origins, origin) == origins,
        without(without(origins, origin), origin) == without(origins, origin),
{
    lemma_without_absent(origins, origin);
    lemma_without(origins, origin, origin);
    lemma_without_absent(without(origins, origin), origin);
}

/// Striking an origin that is not listed changes nothing.
proof fn lemma_without_absent(origins: Seq<Seq<char>>, origin: Seq<char>)
    ensures
        !origins.contains(origin) ==> without(origins, origin) == origins,
    decreases origins.len(),
{
    if origins.len() > 0 && !origins.contains(origin) {
        let shorter = origins.drop_last();
        assert(origins[origins.len() - 1] != origin);
        if shorter.contains(origin) {
            let i = choose|i: int| 0 <= i < shorter.len() && shorter[i] == origin;
            assert(origins[i] == origin);
        }
        lemma_without_absent(shorter, origin);
        assert(shorter.push(origins.last()) =~= origins);
    }
}

/// A job whose origin is not among the active origins, because it was
/// stopped or because its connection is gone, finishes as soon as the page
/// it is on ends.
pub proof fn law_unlisted_job_finishes(job: JobView, event: EventView)
    requires
        ends_page(job, event),
    ensures
        job.next(event, false) == job.finish(),
        job.next(event, Seq::<Seq<char>>::empty().contains(job.origin)) == job.finish(),
{
}

/// A job finishes when its work-list runs out: with no URL left that has
/// a domain of its own still to visit, the end of a page is the end of the
/// job, and its work-list is empty.
pub proof fn law_exhausted_work_list_finishes(job: JobView, event: EventView, listed: bool)
    requires
        ends_page(job, event),
        forall|i: int| 0 <= i < job.pending.len() ==> !fetchable(job.visited, #[trigger] job.pending[i]),
    ensures
        job.next(event, listed).1 == job.finish().1,
        job.next(event, listed).0.stage == Stage::Finished,
        listed ==> job.next(event, listed).0.pending.len() == 0,
{
    lemma_dropped_bound(job.pending, job.visited);
}

/// A job whose origin has been stopped sends its finish event as soon as
/// the page it is on ends, and no result event after that.
pub proof fn law_stopped_job_finishes(job: JobView, origins: Seq<Seq<char>>, event: EventView)
    requires
        ends_page(job, event),
    ensures
        !without(origins, job.origin).contains(job.origin),
        job.next(event, without(origins, job.origin).contains(job.origin)) == job.finish(),
{
    lemma_without(origins, job.origin, job.origin);
}

/// Starting or stopping a job on one origin does not change whether a job
/// on another origin is listed.
pub proof fn law_other_origins_do_not_matter(
    origins: Seq<Seq<char>>,
    mine: Seq<char>,
    other: Seq<char>,
)
    requires
        mine != other,
    ensures
        without(origins, other).contains(mine) == origins.contains(mine),
        origins.push(other).contains(mine) == origins.contains(mine),
{
    lemma_without(origins, other, mine);
    let longer = origins.push(other);
    if longer.contains(mine) {
        let i = choose|i: int| 0 <= i < longer.len() && longer[i] == mine;
        assert(origins[i] == mine);
    }
    if origins.contains(mine) {
        let i = choose|i: int| 0 <= i < origins.len() && origins[i] == mine;
        assert(longer[i] == mine);
    }
}

/// One turn of two jobs that share a connection: which of the two takes an
/// input, and the input.
pub struct Turn {
    pub second: bool,
    pub input: Input,
}

/// The inputs of a schedule that go to one of the two jobs, in order.
pub open spec fn share(schedule: Seq<Turn>, second: bool) -> Seq<Input>
    decreases schedule.len(),
{
    if schedule.len() == 0 {
        Seq::empty()
    } else if schedule.last().second == second {
        share(schedule.drop_last(), second).push(schedule.last().input)
    } else {
        share(schedule.drop_last(), second)
    }
}

/// Two jobs after they have taken the turns of a schedule.
pub open spec fn pair_after(a: JobView, b: JobView, schedule: Seq<Turn>) -> (JobView, JobView)
    decreases schedule.len(),
{
    if schedule.len() == 0 {
        (a, b)
    } else {
        let (x, y) = pair_after(a, b, schedule.drop_last());
        let turn = schedule.last();
        if turn.second {
            (x, y.next(turn.input.event, turn.input.listed).0)
        } else {
            (x.next(turn.input.event, turn.input.listed).0, y)
        }
    }
}

/// What the job whose turn it is asks for at position `at` of a schedule.
pub open spec fn turn_action(a: JobView, b: JobView, schedule: Seq<Turn>, at: int) -> ActionView {
    let (x, y) = pair_after(a, b, schedule.take(at));
    let turn = schedule[at];
    if turn.second {
        y.next(turn.input.event, turn.input.listed).1
    } else {
        x.next(turn.input.event, turn.input.listed).1
    }
}

/// However the turns of two jobs are interleaved, each job ends where it
/// would have ended had it taken its own inputs alone.
pub proof fn law_jobs_do_not_interfere(a: JobView, b: JobView, schedule: Seq<Turn>)
    ensures
        pair_after(a, b, schedule) == (
            state_after(a, share(schedule, false)),
            state_after(b, share(schedule, true)),
        ),
    decreases schedule.len(),
{
    if schedule.len() > 0 {
        law_jobs_do_not_interfere(a, b, schedule.drop_last());
        let turn = schedule.last();
        let mine = share(schedule.drop_last(), turn.second);
        assert(mine.push(turn.input).drop_last() =~= mine);
    }
}

/// However the turns of two jobs are interleaved, what a job asks for on a
/// turn is what it asks for on the same input when it runs alone: the events
/// of each job, taken by themselves, are those of a run of one job.
pub proof fn law_interleaved_actions(a: JobView, b: JobView, schedule: Seq<Turn>, at: int)
    requires
        0 <= at < schedule.len(),
    ensures
        ({
            let second = schedule[at].second;
            let own = share(schedule.take(at + 1), second);
            let index = share(schedule.take(at), second).len() as int;
            &&& own.len() == index + 1
            &&& own[index] == schedule[at].input
            &&& turn_action(a, b, schedule, at) == action_at(if second { b } else { a }, own, index)
        }),
{
    let second = schedule[at].second;
    let before = share(schedule.take(at), second);
    law_jobs_do_not_interfere(a, b, schedule.take(at));
    assert(schedule.take(at + 1).drop_last() =~= schedule.take(at));
    assert(before.push(schedule[at].input).take(before.len() as int) =~= before);
}

} // verus!
